use rank2collection::api_bangumi::{
    add_subject_request, create_index_request, created_index_id, index_subjects_url_of,
    index_title_of, read_user_rating, search_request, search_result_id, search_result_text,
    CollectionItem,
    DownloadStep, RatingDownload, INDICES_URL, PAGE_LIMIT, SEARCH_URL,
};
use rank2collection::json::{JsonNumber, JsonValue};
use rank2collection::paging::{decide_reply, ReplyAction};

fn item(subject_id: usize, rate: usize) -> CollectionItem {
    CollectionItem { subject_id, subject_type: 4, rate }
}

fn member<'a>(v: &'a JsonValue, key: &str) -> &'a JsonValue {
    v.get(key).unwrap()
}

fn text(v: &JsonValue) -> &str {
    match v {
        JsonValue::Str(t) => t.as_str(),
        other => panic!("not a string: {:?}", other),
    }
}

fn object_keys(v: &JsonValue) -> Vec<&str> {
    match v {
        JsonValue::Object(members) => members.iter().map(|(k, _)| k.as_str()).collect(),
        other => panic!("not an object: {:?}", other),
    }
}

#[test]
fn read_user_rating_keeps_tens_in_order() {
    let all = vec![item(1, 10), item(2, 7), item(3, 0), item(4, 10), item(5, 9), item(6, 10)];
    let kept = read_user_rating(&all);
    let ids: Vec<usize> = kept.iter().map(|c| c.subject_id).collect();
    assert_eq!(ids, vec![1, 4, 6]);
    assert!(kept.iter().all(|c| c.rate == 10));
}

#[test]
fn read_user_rating_of_nothing_rated_ten_is_empty() {
    assert!(read_user_rating(&vec![]).is_empty());
    assert!(read_user_rating(&vec![item(1, 9), item(2, 1)]).is_empty());
}

#[test]
fn search_request_body_asks_for_best_ranked_game() {
    let body = search_request("Squirrelmageddon!");
    assert_eq!(object_keys(&body), vec!["keyword", "sort", "filter"]);
    assert_eq!(text(member(&body, "keyword")), "Squirrelmageddon!");
    assert_eq!(text(member(&body, "sort")), "rank");
    let filter = member(&body, "filter");
    assert_eq!(object_keys(filter), vec!["type", "nsfw"]);
    let kinds = member(filter, "type");
    assert_eq!(kinds.at(0).unwrap().as_u64(), Some(4));
    assert!(kinds.at(1).is_none());
    assert!(matches!(member(filter, "nsfw"), JsonValue::Bool(false)));
    assert_eq!(SEARCH_URL, "https://api.bgm.tv/v0/search/subjects?limit=1");
}

#[test]
fn search_without_hits_has_no_id() {
    let answer = JsonValue::Object(vec![
        ("data".to_string(), JsonValue::Array(vec![])),
        ("total".to_string(), JsonValue::Number(JsonNumber::PosInt(0))),
    ]);
    assert!(search_result_id(&answer).is_none());
    assert!(search_result_id(&JsonValue::Null).is_none());
}

#[test]
fn search_reports_id_of_first_hit() {
    let hit = |id: u64| {
        JsonValue::Object(vec![
            ("id".to_string(), JsonValue::Number(JsonNumber::PosInt(id))),
            ("name".to_string(), JsonValue::Str("x".to_string())),
        ])
    };
    let answer = JsonValue::Object(vec![("data".to_string(), JsonValue::Array(vec![hit(328609), hit(1)]))]);
    assert_eq!(search_result_id(&answer).unwrap().as_u64(), Some(328609));
}

#[test]
fn download_urls_walk_the_collection_in_windows() {
    let d = RatingDownload::new("sai");
    assert_eq!(d.request_url(), "https://api.bgm.tv/v0/users/sai/collections?limit=100&offset=0");
    let page: Vec<CollectionItem> = (0..100).map(|i| item(i, 10)).collect();
    match d.on_page(200, page, 250) {
        DownloadStep::More(next) => {
            assert_eq!(next.offset, PAGE_LIMIT);
            assert_eq!(next.collected.len(), 100);
            assert_eq!(next.request_url(), "https://api.bgm.tv/v0/users/sai/collections?limit=100&offset=100");
        }
        DownloadStep::Done(_) => panic!("ended early"),
    }
}

#[test]
fn download_ends_when_total_reached() {
    let mut d = RatingDownload::new("sai");
    let mut requests = Vec::new();
    let pages = [100usize, 100, 50];
    let mut result = None;
    for (k, n) in pages.iter().enumerate() {
        requests.push(d.request_url());
        let page: Vec<CollectionItem> = (0..*n).map(|i| item(k * 100 + i, 1)).collect();
        match d.on_page(200, page, 250) {
            DownloadStep::More(next) => d = next,
            DownloadStep::Done(all) => {
                result = Some(all);
                break;
            }
        }
    }
    let all = result.expect("download did not end");
    assert_eq!(all.len(), 250);
    assert!(all.iter().enumerate().all(|(i, c)| c.subject_id == i));
    assert_eq!(requests.len(), 3);
    assert!(requests[2].ends_with("offset=200"));
}

#[test]
fn download_of_empty_collection_ends_at_once() {
    let d = RatingDownload::new("nobody");
    match d.on_page(200, vec![], 0) {
        DownloadStep::Done(all) => assert!(all.is_empty()),
        DownloadStep::More(_) => panic!("asked again"),
    }
}

#[test]
fn index_title_and_body() {
    assert_eq!(index_title_of("sai"), "sai的十分榜单");
    let body = create_index_request("sai");
    assert_eq!(object_keys(&body), vec!["title"]);
    assert_eq!(text(member(&body, "title")), "sai的十分榜单");
    assert_eq!(INDICES_URL, "https://api.bgm.tv/v0/indices");
}

#[test]
fn created_index_id_reads_unsigned_id() {
    let answer = JsonValue::Object(vec![("id".to_string(), JsonValue::Number(JsonNumber::PosInt(56190)))]);
    assert_eq!(created_index_id(&answer), Some(56190));
    let text_id = JsonValue::Object(vec![("id".to_string(), JsonValue::Str("56190".to_string()))]);
    assert_eq!(created_index_id(&text_id), None);
    assert_eq!(created_index_id(&JsonValue::Object(vec![])), None);
}

#[test]
fn add_subject_url_and_body() {
    assert_eq!(index_subjects_url_of(56190), "https://api.bgm.tv/v0/indices/56190/subjects");
    let body = add_subject_request(3, &item(12345, 10));
    assert_eq!(object_keys(&body), vec!["subject_id", "sort"]);
    assert_eq!(member(&body, "subject_id").as_u64(), Some(12345));
    assert_eq!(member(&body, "sort").as_u64(), Some(3));
}

#[test]
fn download_gives_up_on_refused_reply() {
    let d = RatingDownload::new("sai");
    assert_eq!(d.on_status(401), ReplyAction::GiveUp);
    assert_eq!(d.on_status(500), ReplyAction::GiveUp);
    assert_eq!(d.on_status(302), ReplyAction::GiveUp);
    assert_eq!(d.on_status(200), ReplyAction::ReadPage);
    assert_eq!(decide_reply(204), ReplyAction::ReadPage);
}

#[test]
fn download_stops_at_refusal_after_pages() {
    // Two full pages come back, then a refusal: the run gives up on the third
    // request without finishing.
    let mut d = RatingDownload::new("sai");
    let mut requests = 0;
    let statuses = [200u16, 200, 401];
    let mut gave_up = false;
    for status in statuses {
        requests += 1;
        match d.on_status(status) {
            ReplyAction::GiveUp => {
                gave_up = true;
                break;
            }
            ReplyAction::ReadPage => {
                let page: Vec<CollectionItem> = (0..100).map(|i| item(i, 10)).collect();
                match d.on_page(status, page, 1000) {
                    DownloadStep::More(next) => d = next,
                    DownloadStep::Done(_) => panic!("finished early"),
                }
            }
        }
    }
    assert!(gave_up);
    assert_eq!(requests, 3);
    assert_eq!(d.offset, 200);
}

#[test]
fn search_text_of_no_hit_is_null() {
    let answer = JsonValue::Object(vec![("data".to_string(), JsonValue::Array(vec![]))]);
    assert_eq!(search_result_text(&answer), "null");
    assert_eq!(search_result_text(&JsonValue::Null), "null");
    let null_id = JsonValue::Object(vec![(
        "data".to_string(),
        JsonValue::Array(vec![JsonValue::Object(vec![("id".to_string(), JsonValue::Null)])]),
    )]);
    assert_eq!(search_result_text(&null_id), "null");
}

#[test]
fn search_text_of_every_id_kind() {
    let with_id = |id: JsonValue| {
        JsonValue::Object(vec![(
            "data".to_string(),
            JsonValue::Array(vec![JsonValue::Object(vec![("id".to_string(), id)])]),
        )])
    };
    assert_eq!(search_result_text(&with_id(JsonValue::Number(JsonNumber::PosInt(328609)))), "328609");
    assert_eq!(search_result_text(&with_id(JsonValue::Number(JsonNumber::NegInt(-12)))), "-12");
    assert_eq!(
        search_result_text(&with_id(JsonValue::Number(JsonNumber::NegInt(i64::MIN)))),
        "-9223372036854775808"
    );
    assert_eq!(search_result_text(&with_id(JsonValue::Number(JsonNumber::Float("1.5".to_string())))), "1.5");
    assert_eq!(search_result_text(&with_id(JsonValue::Bool(true))), "true");
    assert_eq!(search_result_text(&with_id(JsonValue::Str("a\"b".to_string()))), "\"a\\\"b\"");
    let nested = JsonValue::Array(vec![
        JsonValue::Number(JsonNumber::PosInt(1)),
        JsonValue::Object(vec![
            ("k".to_string(), JsonValue::Str("v".to_string())),
            ("z".to_string(), JsonValue::Bool(false)),
        ]),
        JsonValue::Array(vec![]),
    ]);
    assert_eq!(search_result_text(&with_id(nested)), "[1,{\"k\":\"v\",\"z\":false},[]]");
}
