use clipboard_master::capture::RawSnapshot;
use clipboard_master::core_api::ClipboardCore;
use clipboard_master::events::ClipboardEvent;
use clipboard_master::events::EventBus;
use clipboard_master::settings::default_settings;
use clipboard_master::model::assemble_item;
use clipboard_master::model::ClipboardContent;
use clipboard_master::model::ExportFormat;
use clipboard_master::model::StoreError;
use clipboard_master::numfmt::hex32_to_id;
use clipboard_master::numfmt::id_to_hex32;
use clipboard_master::numfmt::u64_to_dec;
use clipboard_master::store::Database;

fn seeded_store() -> Database {
    let mut db = Database::new();
    let mut one = assemble_item(
        1,
        ClipboardContent::Text("alpha".to_string()),
        100,
        Some("editor".to_string()),
        None,
        None,
    );
    one.metadata.push(("origin".to_string(), "test".to_string()));
    db.save_item_at(one, 100).unwrap();
    db.save_item_at(
        assemble_item(
            2,
            ClipboardContent::Custom("blob".to_string(), vec![0, 127, 255]),
            200,
            None,
            None,
            None,
        ),
        200,
    )
    .unwrap();
    db.add_tags(1, vec!["work".to_string(), "draft".to_string()]).unwrap();
    db.set_favorite(2, true).unwrap();
    db
}

#[test]
fn json_export_imports_back_identically() {
    let db = seeded_store();
    let doc = db.export_items(ExportFormat::Json);
    let mut fresh = Database::new();
    let count = fresh.import_items(doc.as_str()).unwrap();
    assert_eq!(count, 2);
    assert_eq!(fresh.len(), 2);
    let a = fresh.get_item(1).unwrap();
    assert_eq!(a.content, ClipboardContent::Text("alpha".to_string()));
    assert_eq!(a.timestamp, 100);
    assert_eq!(a.tags, vec!["work".to_string(), "draft".to_string()]);
    assert_eq!(a.source_app, Some("editor".to_string()));
    assert_eq!(a.metadata, vec![("origin".to_string(), "test".to_string())]);
    let b = fresh.get_item(2).unwrap();
    assert_eq!(b.content, ClipboardContent::Custom("blob".to_string(), vec![0, 127, 255]));
    assert!(b.favorite);
}

#[test]
fn import_of_malformed_document_fails_cleanly() {
    let mut db = seeded_store();
    assert_eq!(db.import_items("not json at all"), Err(StoreError::Malformed));
    assert_eq!(db.import_items("{\"not\":\"an array\"}"), Err(StoreError::Malformed));
    assert_eq!(db.len(), 2);
}

#[test]
fn import_draws_fresh_id_only_when_missing() {
    let mut db = Database::new();
    let doc = "[{\"timestamp\":50,\"content\":{\"type\":\"text\",\"data\":\"no id here\"}}]";
    assert_eq!(db.import_items(doc).unwrap(), 1);
    let got = &db.get_recent_items(1)[0];
    assert_eq!(got.timestamp, 50);
    assert_eq!(got.preview_text, "no id here");

    let with_id = "[{\"id\":\"000000000000000000000000000000ff\",\"timestamp\":60,\
                    \"content\":{\"type\":\"text\",\"data\":\"kept id\"}}]";
    assert_eq!(db.import_items(with_id).unwrap(), 1);
    assert!(db.get_item(255).is_some());
}

#[test]
fn import_skips_unreadable_rows() {
    let mut db = Database::new();
    let doc = "[{\"timestamp\":50,\"content\":{\"type\":\"text\",\"data\":\"good\"}},\
               {\"timestamp\":\"bad\"},\
               {\"timestamp\":90,\"content\":{\"type\":\"mystery\",\"data\":\"x\"}}]";
    assert_eq!(db.import_items(doc).unwrap(), 1);
    assert_eq!(db.len(), 1);
}

#[test]
fn csv_export_has_header_and_rows() {
    let mut db = Database::new();
    db.save_item_at(
        assemble_item(255, ClipboardContent::Text("say \"hi\"".to_string()), 7, None, None, None),
        7,
    )
    .unwrap();
    let csv = db.export_items(ExportFormat::Csv);
    let expected = format!(
        "id,type,timestamp,favorite,pinned,preview\n{},text,7,false,false,\"say \"\"hi\"\"\"\n",
        id_to_hex32(255)
    );
    assert_eq!(csv, expected);
}

#[test]
fn markdown_export_lists_previews() {
    let db = seeded_store();
    let md = db.export_items(ExportFormat::Markdown);
    assert!(md.starts_with("# Clipboard Export\n\n"));
    assert!(md.contains("- [text] alpha\n"));
    assert!(md.contains("- [custom] [Custom blob]\n"));
}

#[test]
fn html_export_escapes_markup() {
    let mut db = Database::new();
    db.save_item_at(
        assemble_item(1, ClipboardContent::Text("a<b>&c".to_string()), 10, None, None, None),
        10,
    )
    .unwrap();
    let html = db.export_items(ExportFormat::Html);
    assert!(html.contains("<li>[text] a&lt;b&gt;&amp;c</li>"));
    assert!(html.starts_with("<!DOCTYPE html>"));
}

#[test]
fn json_export_of_empty_store_is_empty_array() {
    let db = Database::new();
    assert_eq!(db.export_items(ExportFormat::Json), "[]");
}

#[test]
fn identifier_hex_round_trips() {
    assert_eq!(id_to_hex32(255), "000000000000000000000000000000ff");
    assert_eq!(hex32_to_id("000000000000000000000000000000ff"), Some(255));
    assert_eq!(hex32_to_id(&id_to_hex32(u128::MAX)), Some(u128::MAX));
    assert_eq!(hex32_to_id("ff"), None);
    assert_eq!(hex32_to_id("zz000000000000000000000000000000"), None);
    assert_eq!(u64_to_dec(12345), "12345");
    assert_eq!(u64_to_dec(0), "0");
}

#[test]
fn event_bus_delivers_in_order() {
    let mut bus = EventBus::new();
    assert!(bus.publish(ClipboardEvent::ItemRemoved(1)));
    assert!(bus.publish(ClipboardEvent::HotkeyPressed("search".to_string())));
    match bus.try_next() {
        Some(ClipboardEvent::ItemRemoved(id)) => assert_eq!(id, 1),
        other => panic!("expected the removal first, got {:?}", other),
    }
    match bus.try_next() {
        Some(ClipboardEvent::HotkeyPressed(name)) => assert_eq!(name, "search"),
        other => panic!("expected the hotkey next, got {:?}", other),
    }
    assert!(bus.try_next().is_none());
}

#[test]
fn core_pipeline_saves_and_publishes() {
    let mut core = ClipboardCore::new(default_settings());
    core.start().unwrap();
    let snap = RawSnapshot {
        text: Some("from the clipboard".to_string()),
        image: None,
        files: None,
        html: None,
    };
    assert!(core.handle_notification(snap, Some("app".to_string()), None));
    assert_eq!(core.get_recent_items(5).len(), 1);
    match core.receive_events().try_recv() {
        Ok(ClipboardEvent::ItemAdded(item)) => {
            assert_eq!(item.preview_text, "from the clipboard");
        }
        other => panic!("expected an added-entry event, got {:?}", other),
    }
    core.stop().unwrap();
}

#[test]
fn negative_timestamps_round_trip_through_json() {
    let mut db = Database::new();
    let mut item = assemble_item(9, ClipboardContent::Text("early".to_string()), -5, None, None, None);
    item.content = ClipboardContent::FileList(vec![clipboard_master::model::FileItem {
        path: "old.txt".to_string(),
        size: 1,
        modified: -123,
    }]);
    item.preview_text = "[Files 1]".to_string();
    db.save_item_at(item, -5).unwrap();
    let doc = db.export_items(ExportFormat::Json);
    let mut fresh = Database::new();
    assert_eq!(fresh.import_items(&doc).unwrap(), 1);
    let got = fresh.get_item(9).unwrap();
    assert_eq!(got.timestamp, -5);
    match got.content {
        ClipboardContent::FileList(fs) => assert_eq!(fs[0].modified, -123),
        other => panic!("expected a file list, got {:?}", other),
    }
}
