//! The requests of the user interface, and the responses of the network.

use mikan::json::Json;
use mikan::models::ProxyMode;
use mikan::network::{
    bypasses_proxy, check_body, check_head, read_limit, user_agent, RSS_MAX_BYTES,
    TORRENT_MAX_BYTES,
};
use mikan::routes::{body_flag, body_string, item_id, route_request, Route};

#[test]
fn parses_item_routes() {
    assert_eq!(item_id("/api/items/abc/download", "/download").unwrap(), "abc");
    assert!(item_id("/api/items/a/b/download", "/download").is_err());
    assert_eq!(
        item_id("/api/items/abc/open-directory", "/open-directory").unwrap(),
        "abc"
    );
}

#[test]
fn refuses_items_without_an_identifier() {
    assert_eq!(item_id("/api/items//download", "/download").unwrap_err(), "Invalid item route");
    assert_eq!(item_id("/api/items/download", "/download").unwrap_err(), "Invalid item route");
    assert_eq!(item_id("/api/abc/download", "/download").unwrap_err(), "Invalid item route");
}

#[test]
fn knows_each_route() {
    let route = |method: &str, path: &str| route_request(method, path).unwrap();
    assert_eq!(route("get", "/api/config"), Route::Config);
    assert_eq!(route("Put", "/api/config"), Route::UpdateConfig);
    assert_eq!(route("POST", "/api/rss/refresh"), Route::RefreshSubscription);
    assert_eq!(route("PUT", "/api/automation"), Route::SetAutoDownload);
    assert_eq!(route("GET", "/api/items"), Route::Items);
    assert_eq!(route("GET", "/api/status"), Route::Status);
    assert_eq!(route("GET", "/api/startup"), Route::Startup);
    assert_eq!(route("PUT", "/api/startup"), Route::SetStartup);
    assert_eq!(route("GET", "/api/bitcomet/detect"), Route::DetectBitComet);
    assert_eq!(route("POST", "/api/bitcomet/inspect"), Route::InspectBitComet);
    assert_eq!(route("POST", "/api/dialog/download-dir"), Route::SelectDownloadDir);
    assert_eq!(route("POST", "/api/dialog/bitcomet-dir"), Route::SelectBitCometDir);
    let id = || "a1".to_string();
    assert_eq!(route("post", "/api/items/a1/download"), Route::Submit(id()));
    assert_eq!(route("POST", "/api/items/a1/ignore"), Route::Ignore(id()));
    assert_eq!(route("POST", "/api/items/a1/unignore"), Route::Unignore(id()));
    assert_eq!(route("POST", "/api/items/a1/retry"), Route::Retry(id()));
    assert_eq!(route("POST", "/api/items/a1/pause"), Route::Pause(id()));
    assert_eq!(route("POST", "/api/items/a1/resume"), Route::Resume(id()));
    assert_eq!(route("POST", "/api/items/a1/delete"), Route::Delete(id()));
    assert_eq!(route("POST", "/api/items/a1/open-directory"), Route::OpenDirectory(id()));
}

#[test]
fn refuses_other_routes() {
    assert_eq!(
        route_request("delete", "/api/items").unwrap_err(),
        "Unsupported local API route: DELETE /api/items"
    );
    assert_eq!(
        route_request("GET", "/api/items/a1/download").unwrap_err(),
        "Unsupported local API route: GET /api/items/a1/download"
    );
    assert_eq!(route_request("POST", "/x/download").unwrap_err(), "Invalid item route");
}

#[test]
fn reads_the_body_of_a_request() {
    let body = Some(Json::Object(vec![
        ("enabled".to_string(), Json::Bool(true)),
        ("path".to_string(), Json::Text("p".to_string())),
    ]));
    assert!(body_flag(&body, "enabled"));
    assert!(!body_flag(&body, "path"));
    assert!(!body_flag(&None, "enabled"));
    assert_eq!(body_string(&body, "path"), "p");
    assert_eq!(body_string(&body, "enabled"), "");
    assert_eq!(body_string(&None, "path"), "");
}

#[test]
fn refuses_a_response_by_its_head() {
    assert_eq!(check_head(&Ok((204, None)), "Test", 5), Ok(()));
    assert_eq!(check_head(&Ok((200, Some(5))), "Test", 5), Ok(()));
    assert_eq!(
        check_head(&Ok((200, Some(6))), "Test", 5).unwrap_err(),
        "Test response exceeds 5 bytes"
    );
    assert_eq!(
        check_head(&Ok((404, Some(6))), "Test", 5).unwrap_err(),
        "Test request failed: HTTP 404"
    );
    assert_eq!(
        check_head(&Err("timeout".to_string()), "Test", 5).unwrap_err(),
        "Test request failed: timeout"
    );
}

#[test]
fn refuses_a_response_by_its_body() {
    assert_eq!(check_body(Ok(vec![1; 5]), "Test", 5), Ok(vec![1; 5]));
    assert_eq!(
        check_body(Ok(vec![1; 6]), "Test", 5).unwrap_err(),
        "Test response exceeds 5 bytes"
    );
    assert_eq!(
        check_body(Err("cut".to_string()), "Test", 5).unwrap_err(),
        "Test response could not be read: cut"
    );
    assert_eq!(read_limit(5), 6);
    assert_eq!((RSS_MAX_BYTES, TORRENT_MAX_BYTES), (5_242_880, 20_971_520));
}

#[test]
fn sends_requests_under_its_name() {
    assert_eq!(user_agent("1.2"), "MikanRssDownloader/1.2");
    assert!(bypasses_proxy(&ProxyMode::NoProxy));
    assert!(!bypasses_proxy(&ProxyMode::System));
}
