use rank2collection::api_neodb::{
    add_subject_request, collection_items_url_of, create_index_request, created_collection_id,
    read_user_rating, Item, MarkRecord, ShelfDownload, ShelfStep, COLLECTIONS_URL,
};
use rank2collection::json::{JsonNumber, JsonValue};
use rank2collection::paging::ReplyAction;

fn mark(uuid: &str, comment: Option<&str>, grade: Option<usize>) -> MarkRecord {
    MarkRecord {
        item: Item { uuid: uuid.to_string() },
        comment_text: comment.map(|c| c.to_string()),
        rating_grade: grade,
    }
}

fn text(v: &JsonValue) -> &str {
    match v {
        JsonValue::Str(t) => t.as_str(),
        other => panic!("not a string: {:?}", other),
    }
}

fn object_keys(v: &JsonValue) -> Vec<&str> {
    match v {
        JsonValue::Object(members) => members.iter().map(|(k, _)| k.as_str()).collect(),
        other => panic!("not an object: {:?}", other),
    }
}

#[test]
fn neodb_read_user_rating_keeps_grade_ten() {
    let all = vec![
        mark("a", Some("great"), Some(10)),
        mark("b", None, Some(8)),
        mark("c", None, None),
        mark("d", None, Some(10)),
    ];
    let kept = read_user_rating(&all);
    let uuids: Vec<&str> = kept.iter().map(|m| m.item.uuid.as_str()).collect();
    assert_eq!(uuids, vec!["a", "d"]);
    assert_eq!(kept[0].comment_text.as_deref(), Some("great"));
    assert_eq!(kept[1].comment_text, None);
}

#[test]
fn neodb_read_user_rating_ungraded_is_dropped() {
    assert!(read_user_rating(&vec![mark("x", None, None), mark("y", Some("ok"), Some(9))]).is_empty());
}

#[test]
fn shelf_download_asks_pages_in_turn() {
    let d = ShelfDownload::new();
    assert_eq!(d.request_url(), "https://neodb.social/api/me/shelf/complete?page=1");
    let d = match d.on_page(200, vec![mark("a", None, Some(10))], 3) {
        ShelfStep::More(next) => next,
        ShelfStep::Done(_) => panic!("ended early"),
    };
    assert_eq!(d.page, 2);
    assert_eq!(d.request_url(), "https://neodb.social/api/me/shelf/complete?page=2");
    let d = match d.on_page(200, vec![mark("b", None, None)], 3) {
        ShelfStep::More(next) => next,
        ShelfStep::Done(_) => panic!("ended early"),
    };
    match d.on_page(200, vec![mark("c", None, Some(1))], 3) {
        ShelfStep::Done(all) => {
            let uuids: Vec<&str> = all.iter().map(|m| m.item.uuid.as_str()).collect();
            assert_eq!(uuids, vec!["a", "b", "c"]);
        }
        ShelfStep::More(_) => panic!("asked past the last page"),
    }
}

#[test]
fn shelf_download_single_page() {
    match ShelfDownload::new().on_page(200, vec![], 1) {
        ShelfStep::Done(all) => assert!(all.is_empty()),
        ShelfStep::More(_) => panic!("asked again"),
    }
    match ShelfDownload::new().on_page(200, vec![], 0) {
        ShelfStep::Done(all) => assert!(all.is_empty()),
        ShelfStep::More(_) => panic!("asked again"),
    }
}

#[test]
fn neodb_create_collection_body() {
    let body = create_index_request("sai");
    assert_eq!(object_keys(&body), vec!["title", "brief", "visibility"]);
    assert_eq!(text(body.get("title").unwrap()), "sai的十分榜单");
    assert_eq!(text(body.get("brief").unwrap()), "");
    assert_eq!(body.get("visibility").unwrap().as_u64(), Some(0));
    assert_eq!(COLLECTIONS_URL, "https://neodb.social/api/me/collection/");
}

#[test]
fn neodb_created_collection_id() {
    let answer = JsonValue::Object(vec![
        ("title".to_string(), JsonValue::Str("t".to_string())),
        ("uuid".to_string(), JsonValue::Str("abc".to_string())),
    ]);
    assert_eq!(created_collection_id(&answer), "abc");
    assert_eq!(created_collection_id(&JsonValue::Object(vec![])), "null");
    let numeric = JsonValue::Object(vec![("uuid".to_string(), JsonValue::Number(JsonNumber::PosInt(5)))]);
    assert_eq!(created_collection_id(&numeric), "5");
}

#[test]
fn shelf_download_gives_up_on_refused_reply() {
    let d = ShelfDownload::new();
    assert_eq!(d.on_status(200), ReplyAction::ReadPage);
    let d = match d.on_page(200, vec![mark("a", None, Some(10))], 5) {
        ShelfStep::More(next) => next,
        ShelfStep::Done(_) => panic!("ended early"),
    };
    assert_eq!(d.on_status(403), ReplyAction::GiveUp);
    assert_eq!(d.page, 2);
}

#[test]
fn neodb_add_item_url_and_body() {
    assert_eq!(collection_items_url_of("2bX9"), "https://neodb.social/api/me/collection/2bX9/item/");
    let with_comment = add_subject_request(&mark("u1", Some("loved it"), Some(10)));
    assert_eq!(object_keys(&with_comment), vec!["item_uuid", "note"]);
    assert_eq!(text(with_comment.get("item_uuid").unwrap()), "u1");
    assert_eq!(text(with_comment.get("note").unwrap()), "loved it");
    let without = add_subject_request(&mark("u2", None, Some(10)));
    assert_eq!(text(without.get("note").unwrap()), "");
}
