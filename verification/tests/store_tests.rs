use clipboard_master::model::assemble_item;
use clipboard_master::model::ClipboardContent;
use clipboard_master::model::ClipboardItem;
use clipboard_master::model::ContentType;
use clipboard_master::model::SearchQuery;
use clipboard_master::model::StoreError;
use clipboard_master::store::Database;

fn text_item(id: u128, text: &str, ts: i64) -> ClipboardItem {
    assemble_item(
        id,
        ClipboardContent::Text(text.to_string()),
        ts,
        None,
        None,
        None,
    )
}

#[test]
fn dedup_within_window_stores_one() {
    let mut db = Database::new();
    db.save_item_at(text_item(1, "hello", 100), 100).unwrap();
    db.save_item_at(text_item(2, "hello", 103), 103).unwrap();
    assert_eq!(db.len(), 1);
}

#[test]
fn saves_beyond_window_store_two() {
    let mut db = Database::new();
    db.save_item_at(text_item(1, "hello", 100), 100).unwrap();
    db.save_item_at(text_item(2, "hello", 106), 106).unwrap();
    assert_eq!(db.len(), 2);
}

#[test]
fn dedup_needs_equal_preview() {
    let mut db = Database::new();
    db.save_item_at(text_item(1, "hello", 100), 100).unwrap();
    db.save_item_at(text_item(2, "world", 101), 101).unwrap();
    assert_eq!(db.len(), 2);
}

#[test]
fn save_with_same_id_replaces() {
    let mut db = Database::new();
    db.save_item_at(text_item(7, "first", 100), 100).unwrap();
    db.save_item_at(text_item(7, "second", 200), 200).unwrap();
    assert_eq!(db.len(), 1);
    let got = db.get_item(7).unwrap();
    assert_eq!(got.preview_text, "second");
}

#[test]
fn cleanup_removes_only_old_unprotected() {
    let mut db = Database::new();
    let now: i64 = 1_000_000;
    db.save_item_at(text_item(1, "ancient", 10), 10).unwrap();
    db.save_item_at(text_item(2, "old favorite", 20), 20).unwrap();
    db.save_item_at(text_item(3, "old pinned", 30), 30).unwrap();
    db.save_item_at(text_item(4, "recent", now - 10), now - 10).unwrap();
    db.set_favorite(2, true).unwrap();
    db.set_pinned(3, true).unwrap();
    let removed = db.cleanup_at(1, now);
    assert_eq!(removed, 1);
    assert_eq!(db.len(), 3);
    assert!(db.get_item(1).is_none());
    assert!(db.get_item(2).is_some());
    assert!(db.get_item(3).is_some());
    assert!(db.get_item(4).is_some());
}

#[test]
fn cleanup_on_empty_store_removes_nothing() {
    let mut db = Database::new();
    assert_eq!(db.cleanup_at(90, 1_000_000), 0);
}

#[test]
fn save_then_get_round_trip() {
    let mut db = Database::new();
    let item = text_item(42, "round trip", 500);
    let copy = item.clone();
    db.save_item_at(item, 500).unwrap();
    let got = db.get_item(42).unwrap();
    assert_eq!(got, copy);
}

#[test]
fn add_then_remove_tags_restores_original() {
    let mut db = Database::new();
    db.save_item_at(text_item(1, "tagged", 100), 100).unwrap();
    db.add_tags(1, vec!["work".to_string()]).unwrap();
    let original = db.get_item(1).unwrap().tags;
    let batch = vec!["alpha".to_string(), "beta".to_string()];
    db.add_tags(1, batch.clone()).unwrap();
    db.remove_tags(1, batch).unwrap();
    assert_eq!(db.get_item(1).unwrap().tags, original);
}

#[test]
fn adding_overlapping_tags_twice_never_duplicates() {
    let mut db = Database::new();
    db.save_item_at(text_item(1, "tagged", 100), 100).unwrap();
    db.add_tags(1, vec!["a".to_string(), "b".to_string()]).unwrap();
    db.add_tags(1, vec!["b".to_string(), "c".to_string(), "b".to_string()])
        .unwrap();
    let tags = db.get_item(1).unwrap().tags;
    assert_eq!(tags, vec!["a".to_string(), "b".to_string(), "c".to_string()]);
}

#[test]
fn tag_operations_on_missing_entry_fail() {
    let mut db = Database::new();
    assert_eq!(db.add_tags(9, vec!["x".to_string()]), Err(StoreError::NotFound));
    assert_eq!(db.remove_tags(9, vec!["x".to_string()]), Err(StoreError::NotFound));
    assert_eq!(db.set_favorite(9, true), Err(StoreError::NotFound));
    assert_eq!(db.set_pinned(9, true), Err(StoreError::NotFound));
}

#[test]
fn update_replaces_and_reports_missing() {
    let mut db = Database::new();
    db.save_item_at(text_item(5, "before", 100), 100).unwrap();
    db.update_item(text_item(5, "after", 300)).unwrap();
    assert_eq!(db.get_item(5).unwrap().preview_text, "after");
    assert_eq!(db.len(), 1);
    assert_eq!(db.update_item(text_item(6, "ghostly", 300)), Err(StoreError::NotFound));
}

#[test]
fn delete_cascades_and_tolerates_missing() {
    let mut db = Database::new();
    db.save_item_at(text_item(5, "here", 100), 100).unwrap();
    db.add_tags(5, vec!["t".to_string()]).unwrap();
    db.delete_item(5).unwrap();
    assert_eq!(db.len(), 0);
    assert!(db.get_item(5).is_none());
    assert!(db.delete_item(5).is_ok());
}

#[test]
fn recent_items_come_newest_first() {
    let mut db = Database::new();
    db.save_item_at(text_item(1, "one", 100), 100).unwrap();
    db.save_item_at(text_item(2, "two", 300), 300).unwrap();
    db.save_item_at(text_item(3, "three", 200), 200).unwrap();
    let recent = db.get_recent_items(2);
    assert_eq!(recent.len(), 2);
    assert_eq!(recent[0].id, 2);
    assert_eq!(recent[1].id, 3);
    let all = db.get_recent_items(10);
    assert_eq!(all.len(), 3);
    assert_eq!(all[2].id, 1);
}

#[test]
fn statistics_partition_the_store() {
    let mut db = Database::new();
    db.save_item_at(text_item(1, "words", 100), 100).unwrap();
    db.save_item_at(
        assemble_item(2, ClipboardContent::Html("<b>x</b>".to_string()), 200, None, None, None),
        200,
    )
    .unwrap();
    db.save_item_at(
        assemble_item(3, ClipboardContent::RichText("rtf".to_string()), 300, None, None, None),
        300,
    )
    .unwrap();
    db.save_item_at(
        assemble_item(
            4,
            ClipboardContent::Custom("shape".to_string(), vec![1, 2, 3]),
            400,
            None,
            None,
            None,
        ),
        400,
    )
    .unwrap();
    db.set_favorite(1, true).unwrap();
    db.set_pinned(1, true).unwrap();
    db.set_favorite(2, true).unwrap();
    let st = db.get_statistics(77, 88);
    assert_eq!(st.total_items, 4);
    assert_eq!(st.text_items, 1);
    assert_eq!(st.html_items, 1);
    assert_eq!(st.image_items, 0);
    assert_eq!(st.file_items, 0);
    let others = st.total_items - st.text_items - st.html_items - st.image_items - st.file_items;
    assert_eq!(others, 2);
    assert!(st.favorite_items <= st.total_items);
    assert!(st.pinned_items <= st.total_items);
    assert_eq!(st.favorite_items, 2);
    assert_eq!(st.pinned_items, 1);
    assert_eq!(st.total_size_bytes, 5 + 8 + 3 + (5 + 3));
    assert_eq!(st.database_size_bytes, 77);
    assert_eq!(st.cache_size_bytes, 88);
}

fn query() -> SearchQuery {
    SearchQuery::any()
}

#[test]
fn search_filters_compose() {
    let mut db = Database::new();
    db.save_item_at(text_item(1, "hello world", 100), 100).unwrap();
    db.save_item_at(text_item(2, "goodbye world", 200), 200).unwrap();
    db.save_item_at(
        assemble_item(3, ClipboardContent::Html("<p>hello</p>".to_string()), 300, None, None, None),
        300,
    )
    .unwrap();
    db.set_favorite(2, true).unwrap();
    db.add_tags(1, vec!["greeting".to_string()]).unwrap();

    let mut q = query();
    q.text = Some("hello".to_string());
    let hits = db.search_items(&q);
    assert_eq!(hits.len(), 2);
    assert_eq!(hits[0].id, 3);
    assert_eq!(hits[1].id, 1);

    let mut q = query();
    q.tags = vec!["greeting".to_string()];
    let hits = db.search_items(&q);
    assert_eq!(hits.len(), 1);
    assert_eq!(hits[0].id, 1);

    let mut q = query();
    q.favorite_only = true;
    let hits = db.search_items(&q);
    assert_eq!(hits.len(), 1);
    assert_eq!(hits[0].id, 2);

    let mut q = query();
    q.content_types = vec![ContentType::Html];
    let hits = db.search_items(&q);
    assert_eq!(hits.len(), 1);
    assert_eq!(hits[0].id, 3);

    let mut q = query();
    q.date_from = Some(150);
    q.date_to = Some(250);
    let hits = db.search_items(&q);
    assert_eq!(hits.len(), 1);
    assert_eq!(hits[0].id, 2);

    let mut q = query();
    q.limit = Some(1);
    q.offset = Some(1);
    let hits = db.search_items(&q);
    assert_eq!(hits.len(), 1);
    assert_eq!(hits[0].id, 2);
}

#[test]
fn empty_search_text_matches_everything() {
    let mut db = Database::new();
    db.save_item_at(text_item(1, "anything", 100), 100).unwrap();
    let mut q = query();
    q.text = Some(String::new());
    assert_eq!(db.search_items(&q).len(), 1);
}
