use junkdrawer::bookmarks::BookmarkMetadata;
use junkdrawer::item::{CreateItemRequest, UpdateItemRequest};
use junkdrawer::search::{document_for_item, format_i32, format_u64, TypesenseError};
use junkdrawer::store::{StoreError, SyncingStore};
use junkdrawer::time::{from_epoch_seconds, NaiveStamp};

fn stamp(epoch: i64) -> NaiveStamp {
    from_epoch_seconds(epoch).expect("representable")
}

fn note_request(title: &[u8]) -> CreateItemRequest {
    CreateItemRequest {
        title: title.to_vec(),
        content: Some(b"body".to_vec()),
        item_type: b"note".to_vec(),
        tags: Some(b"a, b".to_vec()),
        source_type: None,
        source_url: None,
    }
}

#[test]
fn created_item_is_retrievable_and_indexed_when_the_index_is_up() {
    let mut store = SyncingStore::new();
    let (item, doc) = store.create_item(note_request(b"first"), stamp(1_700_000_000));
    assert_eq!(item.id, 1);
    assert_eq!(item.title, b"first".to_vec());

    // The relational row exists before any index call.
    assert!(store.get_item_by_id(1).is_some());

    // Index available: the upsert is acknowledged and retrievable state
    // reflects it.
    let r = store.record_upsert(item.id, doc, Ok(()));
    assert!(r.is_ok());
    assert!(store.index.collection_ready);
    assert_eq!(store.index.entries.len(), 1);
    assert_eq!(store.index.entries[0].id, 1);
}

#[test]
fn failed_index_write_reports_failure_but_keeps_the_row() {
    let mut store = SyncingStore::new();
    let (item, doc) = store.create_item(note_request(b"kept"), stamp(1_700_000_000));

    let r = store.record_upsert(item.id, doc, Err(TypesenseError::HttpTransport));
    assert_eq!(r, Err(TypesenseError::HttpTransport));

    // The primary store is authoritative: the row is still retrievable.
    let row = store.get_item_by_id(item.id).expect("row kept");
    assert_eq!(row.title, b"kept".to_vec());
    // The index saw nothing.
    assert!(store.index.entries.is_empty());
}

#[test]
fn document_projection_is_exact() {
    let mut store = SyncingStore::new();
    let req = CreateItemRequest {
        title: b"A note".to_vec(),
        content: None,
        item_type: b"note".to_vec(),
        tags: Some(b"  personal, work , , ideas  ".to_vec()),
        source_type: None,
        source_url: None,
    };
    let (item, doc) = store.create_item(req, stamp(1_700_000_000));
    assert_eq!(doc.id, b"1".to_vec());
    assert_eq!(doc.title, b"A note".to_vec());
    assert_eq!(doc.content, Vec::<u8>::new());
    assert_eq!(doc.item_type, b"note".to_vec());
    assert_eq!(
        doc.tags,
        vec![b"personal".to_vec(), b"work".to_vec(), b"ideas".to_vec()]
    );
    assert_eq!(doc.created_at, 1_700_000_000);
    assert_eq!(doc.updated_at, 1_700_000_000);
    let again = document_for_item(&item);
    assert_eq!(again.id, doc.id);
}

#[test]
fn identifiers_increment_and_listing_is_newest_first() {
    let mut store = SyncingStore::new();
    let (a, _) = store.create_item(note_request(b"oldest"), stamp(100_000));
    let (b, _) = store.create_item(note_request(b"newest"), stamp(300_000));
    let (c, _) = store.create_item(note_request(b"middle"), stamp(200_000));
    assert_eq!((a.id, b.id, c.id), (1, 2, 3));

    let all = store.get_all_items();
    let titles: Vec<&[u8]> = all.iter().map(|it| it.title.as_slice()).collect();
    assert_eq!(titles, vec![&b"newest"[..], &b"middle"[..], &b"oldest"[..]]);
}

#[test]
fn update_replaces_fields_and_keeps_creation_time() {
    let mut store = SyncingStore::new();
    let (item, _) = store.create_item(note_request(b"before"), stamp(1_000));
    let req = UpdateItemRequest {
        id: item.id,
        title: b"after".to_vec(),
        content: None,
        item_type: b"note".to_vec(),
        tags: None,
        source_type: None,
        source_url: None,
    };
    let (updated, doc) = store.update_item(req, stamp(2_000)).expect("row exists");
    assert_eq!(updated.title, b"after".to_vec());
    assert_eq!(doc.created_at, 1_000);
    assert_eq!(doc.updated_at, 2_000);
    let row = store.get_item_by_id(item.id).expect("still there");
    assert_eq!(row.title, b"after".to_vec());
}

#[test]
fn update_of_a_missing_id_is_item_not_found() {
    let mut store = SyncingStore::new();
    let req = UpdateItemRequest {
        id: 9,
        title: b"x".to_vec(),
        content: None,
        item_type: b"note".to_vec(),
        tags: None,
        source_type: None,
        source_url: None,
    };
    let r = store.update_item(req, stamp(2_000));
    assert!(matches!(r, Err(StoreError::ItemNotFound)));
}

#[test]
fn update_never_moves_before_creation() {
    let mut store = SyncingStore::new();
    let (item, _) = store.create_item(note_request(b"t"), stamp(5_000));
    let req = UpdateItemRequest {
        id: item.id,
        title: b"t".to_vec(),
        content: None,
        item_type: b"note".to_vec(),
        tags: None,
        source_type: None,
        source_url: None,
    };
    // A clock that went backwards cannot break updated_at >= created_at.
    let (updated, _) = store.update_item(req, stamp(1_000)).expect("row exists");
    assert_eq!(junkdrawer::time::timestamp(updated.updated_at), 5_000);
}

#[test]
fn delete_clears_the_row_and_its_document_and_is_repeatable() {
    let mut store = SyncingStore::new();
    let (item, doc) = store.create_item(note_request(b"gone"), stamp(1_000));
    let id = item.id;
    store.record_upsert(id, doc, Ok(())).unwrap();

    store.delete_item(id);
    assert!(store.get_item_by_id(id).is_none());
    assert!(store.record_delete(id, Ok(())).is_ok());
    assert!(store.index.entries.is_empty());

    // Deleting again: the store tolerates it and the engine's 404 is
    // already classified as success by the caller.
    store.delete_item(id);
    assert!(store.get_item_by_id(id).is_none());
    assert!(store.record_delete(id, Ok(())).is_ok());
}

#[test]
fn bookmarks_map_metadata_onto_a_bookmark_item() {
    let mut store = SyncingStore::new();
    let metadata = BookmarkMetadata {
        title: b"A page".to_vec(),
        description: Some(b"about it".to_vec()),
        url: "https://example.org/a".to_string(),
        favicon_url: None,
    };
    let (item, doc) = store.create_bookmark(metadata, stamp(1_700_000_000));
    assert_eq!(item.title, b"A page".to_vec());
    assert_eq!(item.content, Some(b"about it".to_vec()));
    assert_eq!(item.item_type, b"bookmark".to_vec());
    assert_eq!(item.source_type, Some(b"bookmark".to_vec()));
    assert_eq!(item.source_url, Some("https://example.org/a".to_string()));
    assert!(item.tags.is_none());
    assert_eq!(doc.item_type, b"bookmark".to_vec());
}

#[test]
fn negative_identifier_rendering_matches_decimal() {
    assert_eq!(format_u64(0), b"0".to_vec());
    assert_eq!(format_u64(907), b"907".to_vec());
    assert_eq!(format_i32(-42), b"-42".to_vec());
    assert_eq!(format_i32(i32::MIN), b"-2147483648".to_vec());
}
