use std::collections::HashMap;

use pocket_api_client::client::{added_item, all_items, PocketApiClient};
use pocket_api_client::config::{Inner, PocketApiConfig};
use pocket_api_client::decimal::{i64_decimal, u64_decimal};
use pocket_api_client::error::{body_parse_failed, body_receive_failed, request_failed, PocketApiError};
use pocket_api_client::json_body::{str_equal, JsonObject};
use pocket_api_client::path::{segment_to_pieces, split_slashes, trim_slashes};
use pocket_api_client::reply::{check_api_status, check_reply_status, status_is_success};
use pocket_api_client::request_builder::{PocketRequest, PocketRequestBuilder};
use pocket_api_client::responses::{
    CodeRequestResponse, ItemInfo, ItemsInfoResponse, NewItemInfo, NewItemInfoResponse,
    TokenRequestResponse,
};
use pocket_api_client::token_receiver::{
    auth_info_with_url, received_token, user_auth_info, AuthInfo, PocketApiTokenReceiver,
};

fn config() -> PocketApiConfig {
    PocketApiConfig::new_default("consumer-123".to_string())
}

fn body_map(req: &PocketRequest) -> HashMap<String, String> {
    req.body.entries().into_iter().collect()
}

fn strings(v: &[&str]) -> Vec<String> {
    v.iter().map(|s| s.to_string()).collect()
}

fn http_error() -> reqwest::Error {
    reqwest::Client::new().get("not a url").build().unwrap_err()
}

fn json_error() -> serde_json::Error {
    serde_json::from_str::<serde_json::Value>("{").unwrap_err()
}

fn new_item(id: &str) -> NewItemInfo {
    NewItemInfo {
        item_id: id.to_string(),
        normal_url: "http://example.com".to_string(),
        title: "Example".to_string(),
        other: HashMap::new(),
    }
}

#[test]
fn trim_removes_outer_slashes_only() {
    assert_eq!(trim_slashes("//a/b//"), "a/b");
    assert_eq!(trim_slashes("add"), "add");
    assert_eq!(trim_slashes("///"), "");
    assert_eq!(trim_slashes(""), "");
    assert_eq!(trim_slashes("/ä/ö/"), "ä/ö");
}

#[test]
fn split_keeps_empty_pieces() {
    assert_eq!(split_slashes("a//b"), strings(&["a", "", "b"]));
    assert_eq!(split_slashes(""), strings(&[""]));
    assert_eq!(split_slashes("/"), strings(&["", ""]));
    assert_eq!(split_slashes("oauth/request"), strings(&["oauth", "request"]));
}

#[test]
fn segment_pieces_trim_then_split() {
    assert_eq!(segment_to_pieces("/oauth/request/"), strings(&["oauth", "request"]));
    assert_eq!(segment_to_pieces("///"), strings(&[""]));
    assert_eq!(segment_to_pieces("get"), strings(&["get"]));
}

#[test]
fn outer_slashes_do_not_change_pieces() {
    assert_eq!(segment_to_pieces("/a/b/"), segment_to_pieces("a/b"));
    assert_eq!(segment_to_pieces("//"), segment_to_pieces(""));
}

#[test]
fn json_object_insert_replaces() {
    let mut obj = JsonObject::new();
    assert_eq!(obj.get("url"), None);
    obj.insert("url".to_string(), "a".to_string());
    obj.insert("title".to_string(), "t".to_string());
    obj.insert("url".to_string(), "b".to_string());
    assert_eq!(obj.get("url"), Some("b"));
    assert_eq!(obj.get("title"), Some("t"));
    assert_eq!(obj.entries().len(), 2);
    let copy = obj.clone();
    assert_eq!(copy.get("url"), Some("b"));
}

#[test]
fn str_equal_compares_chars() {
    assert!(str_equal("abc", "abc"));
    assert!(!str_equal("abc", "abd"));
    assert!(!str_equal("abc", "ab"));
    assert!(str_equal("", ""));
}

#[test]
fn builder_url_starts_with_version() {
    let req = PocketRequestBuilder::new(config())
        .join_path("add".to_string())
        .build()
        .unwrap();
    assert_eq!(req.url, "https://getpocket.com/v3/add");
}

#[test]
fn builder_splits_segments_with_slashes() {
    let req = PocketRequestBuilder::new(config())
        .join_path("/oauth/request/".to_string())
        .build()
        .unwrap();
    assert_eq!(req.url, "https://getpocket.com/v3/oauth/request");
    let req2 = PocketRequestBuilder::new(config())
        .join_path("oauth".to_string())
        .join_path("request".to_string())
        .build()
        .unwrap();
    assert_eq!(req.url, req2.url);
}

#[test]
fn builder_percent_encodes_pieces_and_skips_dots() {
    let req = PocketRequestBuilder::new(config())
        .join_path("a b".to_string())
        .join_path(".".to_string())
        .join_path("c%d".to_string())
        .build()
        .unwrap();
    assert_eq!(req.url, "https://getpocket.com/v3/a%20b/c%25d");
}

#[test]
fn builder_without_segments_gets_version_only() {
    let req = PocketRequestBuilder::new(config()).build().unwrap();
    assert_eq!(req.url, "https://getpocket.com/v3");
}

#[test]
fn builder_body_holds_consumer_key_and_token() {
    let mut data = JsonObject::new();
    data.insert("state".to_string(), "all".to_string());
    data.insert("consumer_key".to_string(), "overridden".to_string());
    let req = PocketRequestBuilder::new(config())
        .user_api_token("old".to_string())
        .json(data)
        .user_api_token("token-9".to_string())
        .build()
        .unwrap();
    let body = body_map(&req);
    assert_eq!(body.len(), 3);
    assert_eq!(body["state"], "all");
    assert_eq!(body["consumer_key"], "consumer-123");
    assert_eq!(body["access_token"], "token-9");
}

#[test]
fn builder_without_token_sends_none() {
    let req = PocketRequestBuilder::new(config()).build().unwrap();
    let body = body_map(&req);
    assert_eq!(body.len(), 1);
    assert_eq!(body["consumer_key"], "consumer-123");
}

#[test]
fn builder_headers_are_json() {
    let req = PocketRequestBuilder::new(config()).build().unwrap();
    assert_eq!(
        req.headers,
        vec![
            ("Content-Type".to_string(), "application/json; charset=UTF-8".to_string()),
            ("X-Accept".to_string(), "application/json".to_string()),
        ]
    );
}

#[test]
fn builder_clone_builds_same_request() {
    let b = PocketRequestBuilder::new(config())
        .user_api_token("t".to_string())
        .join_path("get".to_string());
    let c = b.clone();
    let r1 = b.build().unwrap();
    let r2 = c.build().unwrap();
    assert_eq!(r1.url, r2.url);
    assert_eq!(body_map(&r1), body_map(&r2));
}

#[test]
fn build_with_missing_url_is_invalid_base() {
    let res = PocketRequestBuilder::new(config()).build_with_url(None);
    assert!(matches!(res, Err(PocketApiError::InvalidBaseUrl)));
    let ok = PocketRequestBuilder::new(config())
        .build_with_url(Some("http://x/y".to_string()))
        .unwrap();
    assert_eq!(ok.url, "http://x/y");
}

#[test]
fn builder_url_segments_list() {
    let b = PocketRequestBuilder::new(config())
        .join_path("a/b".to_string())
        .join_path("c".to_string());
    assert_eq!(b.url_segments(), strings(&["v3", "a", "b", "c"]));
}

#[test]
fn config_defaults() {
    let c = config();
    assert_eq!(c.api_url, "https://getpocket.com/");
    assert_eq!(c.api_consumer_key, "consumer-123");
    let inner = Inner::new("u".to_string(), "k".to_string());
    assert_eq!(inner.api_url, "u");
    assert_eq!(inner.clone().api_consumer_key, "k");
}

#[test]
fn client_add_request() {
    let client = PocketApiClient::new(config(), "user-token".to_string());
    let req = client
        .add_request("https://google.com".to_string(), None)
        .unwrap();
    assert_eq!(req.url, "https://getpocket.com/v3/add");
    let body = body_map(&req);
    assert_eq!(body.len(), 3);
    assert_eq!(body["url"], "https://google.com");
    assert_eq!(body["access_token"], "user-token");
    assert_eq!(body["consumer_key"], "consumer-123");
}

#[test]
fn client_add_request_with_title() {
    let client = PocketApiClient::new(config(), "user-token".to_string());
    let req = client
        .add_request("https://google.com".to_string(), Some("Google".to_string()))
        .unwrap();
    let body = body_map(&req);
    assert_eq!(body.len(), 4);
    assert_eq!(body["title"], "Google");
}

#[test]
fn client_get_all_request() {
    let client = PocketApiClient::new(config(), "user-token".to_string());
    let req = client.get_all_request().unwrap();
    assert_eq!(req.url, "https://getpocket.com/v3/get");
    let body = body_map(&req);
    assert_eq!(body["state"], "all");
    assert_eq!(body["access_token"], "user-token");
    // the client's own builder is untouched by a request
    let again = client.get_all_request().unwrap();
    assert_eq!(again.url, req.url);
}

#[test]
fn receiver_requests() {
    let receiver = PocketApiTokenReceiver::new(config());
    let req = receiver
        .auth_code_request("http://127.0.0.1:9999/callback".to_string())
        .unwrap();
    assert_eq!(req.url, "https://getpocket.com/v3/oauth/request");
    let body = body_map(&req);
    assert_eq!(body.len(), 2);
    assert_eq!(body["redirect_uri"], "http://127.0.0.1:9999/callback");
    assert!(!body.contains_key("access_token"));

    let req = receiver.token_request("code-1".to_string()).unwrap();
    assert_eq!(req.url, "https://getpocket.com/v3/oauth/authorize");
    let body = body_map(&req);
    assert_eq!(body["code"], "code-1");
    assert!(!body.contains_key("access_token"));
}

#[test]
fn auth_info_url_carries_query() {
    let info = user_auth_info(
        CodeRequestResponse { code: "abc-1".to_string() },
        "http://127.0.0.1:9999/callback",
    )
    .unwrap();
    assert_eq!(info.code, "abc-1");
    assert_eq!(
        info.auth_url,
        "https://getpocket.com/auth/authorize?request_token=abc-1&redirect_uri=http%3A%2F%2F127.0.0.1%3A9999%2Fcallback"
    );
    assert_eq!(
        info.to_display_string(),
        format!("code = abc-1, auth_url = {}", info.auth_url)
    );
}

#[test]
fn auth_info_with_missing_url() {
    assert!(auth_info_with_url("c".to_string(), None).is_none());
    let info: AuthInfo = auth_info_with_url("c".to_string(), Some("u".to_string())).unwrap();
    assert_eq!(info.auth_url, "u");
}

#[test]
fn token_from_reply() {
    let reply = TokenRequestResponse {
        access_token: "tok".to_string(),
        username: "me".to_string(),
    };
    assert_eq!(reply.to_display_string(), "access_token = tok, username = me");
    assert_eq!(received_token(reply), "tok");
}

#[test]
fn reply_status_success_range() {
    assert!(status_is_success(200));
    assert!(status_is_success(299));
    assert!(!status_is_success(199));
    assert!(!status_is_success(300));
    assert!(check_reply_status(204, None, None).is_ok());
    assert!(check_reply_status(200, Some("1".to_string()), Some("x".to_string())).is_ok());
}

#[test]
fn reply_status_api_error() {
    match check_reply_status(403, Some("158".to_string()), Some("User rejected code".to_string())) {
        Err(PocketApiError::PocketApiError(s, c, d)) => {
            assert_eq!(s, 403);
            assert_eq!(c, "158");
            assert_eq!(d, "User rejected code");
        }
        other => panic!("unexpected {:?}", other),
    }
}

#[test]
fn reply_status_unknown_error() {
    assert!(matches!(
        check_reply_status(500, None, Some("x".to_string())),
        Err(PocketApiError::PocketUnknownApiError(500))
    ));
    assert!(matches!(
        check_reply_status(404, Some("1".to_string()), None),
        Err(PocketApiError::PocketUnknownApiError(404))
    ));
}

#[test]
fn api_status_must_be_one() {
    assert!(check_api_status(1).is_ok());
    assert!(matches!(check_api_status(0), Err(PocketApiError::PocketInvalidApiStatus(0))));
    assert!(matches!(check_api_status(2), Err(PocketApiError::PocketInvalidApiStatus(2))));
}

#[test]
fn added_item_checks_status() {
    let ok = added_item(NewItemInfoResponse { status: 1, item: new_item("7") }).unwrap();
    assert_eq!(ok.item_id, "7");
    assert!(matches!(
        added_item(NewItemInfoResponse { status: 2, item: new_item("7") }),
        Err(PocketApiError::PocketInvalidApiStatus(2))
    ));
}

#[test]
fn all_items_checks_status() {
    let mut list = HashMap::new();
    list.insert(
        "1".to_string(),
        ItemInfo {
            item_id: "1".to_string(),
            resolved_url: "u".to_string(),
            resolved_title: "t".to_string(),
            other: HashMap::new(),
        },
    );
    let items = all_items(ItemsInfoResponse { status: 1, list }).unwrap();
    assert_eq!(items.len(), 1);
    assert_eq!(items["1"].resolved_title, "t");
    assert!(matches!(
        all_items(ItemsInfoResponse { status: 0, list: HashMap::new() }),
        Err(PocketApiError::PocketInvalidApiStatus(0))
    ));
}

#[test]
fn error_contexts() {
    match request_failed("Add item", http_error()) {
        PocketApiError::RequestError(c, _) => assert_eq!(c, "Request failed with context: Add item"),
        other => panic!("unexpected {:?}", other),
    }
    match body_receive_failed("Add item", http_error()) {
        PocketApiError::RequestError(c, _) => {
            assert_eq!(c, "Body receive failed with context: Add item")
        }
        other => panic!("unexpected {:?}", other),
    }
    match body_parse_failed("Get all items", json_error()) {
        PocketApiError::JsonParseError(c, _) => {
            assert_eq!(c, "Body json parse failed with context: Get all items")
        }
        other => panic!("unexpected {:?}", other),
    }
}

#[test]
fn decimal_notation() {
    assert_eq!(i64_decimal(0), "0");
    assert_eq!(i64_decimal(-5), "-5");
    assert_eq!(i64_decimal(1234567), "1234567");
    assert_eq!(i64_decimal(i64::MIN), i64::MIN.to_string());
    assert_eq!(i64_decimal(i64::MAX), i64::MAX.to_string());
    assert_eq!(u64_decimal(u64::MAX), u64::MAX.to_string());
    assert_eq!(u64_decimal(10), "10");
}

#[test]
fn display_strings() {
    assert_eq!(
        CodeRequestResponse { code: "c1".to_string() }.to_display_string(),
        "c1"
    );
    assert_eq!(
        new_item("7").to_display_string(),
        "id = 7, title = Example, url = http://example.com"
    );
    assert_eq!(
        NewItemInfoResponse { status: 1, item: new_item("7") }.to_display_string(),
        "status: 1, item: (id = 7, title = Example, url = http://example.com)"
    );
    let item = ItemInfo {
        item_id: "3".to_string(),
        resolved_url: "u".to_string(),
        resolved_title: "t".to_string(),
        other: HashMap::new(),
    };
    assert_eq!(item.to_display_string(), "id = 3, title = t, url = u");
    let mut list = HashMap::new();
    list.insert("3".to_string(), item);
    assert_eq!(
        ItemsInfoResponse { status: -1, list }.to_display_string(),
        "status: -1, items_count: 1"
    );
}

#[test]
fn pieces_rejoin_to_trimmed_segment() {
    for s in ["/a//b/", "x", "", "//", "a/b/c"] {
        let pieces = segment_to_pieces(s);
        assert_eq!(pieces.join("/"), trim_slashes(s));
        assert!(pieces.iter().all(|p| !p.contains('/')));
    }
}
