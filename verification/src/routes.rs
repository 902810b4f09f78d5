//! The requests of the user interface: which one is for what.

use vstd::prelude::*;
use vstd::string::*;

use crate::json::{member_of, text_in, Json};
use crate::outside::same_text;
use crate::text::{
    chars_of, contains_char, ends_with, joined, starts_with, text_between, to_upper, upper,
};

verus! {

/// What a request is for.
#[derive(Debug, PartialEq, Eq)]
pub enum Route {
    Config,
    UpdateConfig,
    RefreshSubscription,
    SetAutoDownload,
    Items,
    Status,
    Startup,
    SetStartup,
    DetectBitComet,
    InspectBitComet,
    SelectDownloadDir,
    SelectBitCometDir,
    Submit(String),
    Ignore(String),
    Unignore(String),
    Retry(String),
    Pause(String),
    Resume(String),
    Delete(String),
    OpenDirectory(String),
}

/// The contents of a `Route`.
pub enum RouteView {
    Config,
    UpdateConfig,
    RefreshSubscription,
    SetAutoDownload,
    Items,
    Status,
    Startup,
    SetStartup,
    DetectBitComet,
    InspectBitComet,
    SelectDownloadDir,
    SelectBitCometDir,
    Submit(Seq<char>),
    Ignore(Seq<char>),
    Unignore(Seq<char>),
    Retry(Seq<char>),
    Pause(Seq<char>),
    Resume(Seq<char>),
    Delete(Seq<char>),
    OpenDirectory(Seq<char>),
}

impl View for Route {
    type V = RouteView;

    open spec fn view(&self) -> RouteView {
        match self {
            Route::Config => RouteView::Config,
            Route::UpdateConfig => RouteView::UpdateConfig,
            Route::RefreshSubscription => RouteView::RefreshSubscription,
            Route::SetAutoDownload => RouteView::SetAutoDownload,
            Route::Items => RouteView::Items,
            Route::Status => RouteView::Status,
            Route::Startup => RouteView::Startup,
            Route::SetStartup => RouteView::SetStartup,
            Route::DetectBitComet => RouteView::DetectBitComet,
            Route::InspectBitComet => RouteView::InspectBitComet,
            Route::SelectDownloadDir => RouteView::SelectDownloadDir,
            Route::SelectBitCometDir => RouteView::SelectBitCometDir,
            Route::Submit(id) => RouteView::Submit(id@),
            Route::Ignore(id) => RouteView::Ignore(id@),
            Route::Unignore(id) => RouteView::Unignore(id@),
            Route::Retry(id) => RouteView::Retry(id@),
            Route::Pause(id) => RouteView::Pause(id@),
            Route::Resume(id) => RouteView::Resume(id@),
            Route::Delete(id) => RouteView::Delete(id@),
            Route::OpenDirectory(id) => RouteView::OpenDirectory(id@),
        }
    }
}

/// The identifier of the item that a path names before a suffix.
pub open spec fn id_in(path: Seq<char>, suffix: Seq<char>) -> Option<Seq<char>> {
    let prefix = "/api/items/"@;
    let rest = path.skip(prefix.len() as int);
    let id = rest.take(rest.len() - suffix.len());
    if prefix.is_prefix_of(path) && suffix.is_suffix_of(rest) && id.len() > 0 && !id.contains('/') {
        Some(id)
    } else {
        None
    }
}

/// Reads the identifier of the item that a path names before a suffix.
pub fn item_id(path: &str, suffix: &str) -> (r: Result<String, String>)
    ensures
        match r {
            Ok(id) => id_in(path@, suffix@) == Some(id@),
            Err(message) => id_in(path@, suffix@) is None && message@ == "Invalid item route"@,
        },
{
    let refused = "Invalid item route".to_string();
    if !starts_with(path, "/api/items/") {
        return Err(refused);
    }
    proof {
        reveal_strlit("/api/items/");
    }
    let chars = chars_of(path);
    let rest = text_between(&chars, 11, chars.len());
    assert(rest@ =~= path@.skip(11));
    if !ends_with(&rest, suffix) {
        return Err(refused);
    }
    let suffix_chars = chars_of(suffix);
    let end = chars.len() - suffix_chars.len();
    let id = text_between(&chars, 11, end);
    assert(id@ =~= rest@.take(rest@.len() - suffix@.len()));
    if id.as_str().is_empty() || contains_char(&id, '/') {
        return Err(refused);
    }
    Ok(id)
}

/// The route to an item.
pub open spec fn item_route(path: Seq<char>) -> Option<Result<RouteView, Seq<char>>> {
    if "/download"@.is_suffix_of(path) {
        Some(
            match id_in(path, "/download"@) {
                Some(id) => Ok(RouteView::Submit(id)),
                None => Err("Invalid item route"@),
            },
        )
    } else if "/ignore"@.is_suffix_of(path) {
        Some(
            match id_in(path, "/ignore"@) {
                Some(id) => Ok(RouteView::Ignore(id)),
                None => Err("Invalid item route"@),
            },
        )
    } else if "/unignore"@.is_suffix_of(path) {
        Some(
            match id_in(path, "/unignore"@) {
                Some(id) => Ok(RouteView::Unignore(id)),
                None => Err("Invalid item route"@),
            },
        )
    } else if "/retry"@.is_suffix_of(path) {
        Some(
            match id_in(path, "/retry"@) {
                Some(id) => Ok(RouteView::Retry(id)),
                None => Err("Invalid item route"@),
            },
        )
    } else if "/pause"@.is_suffix_of(path) {
        Some(
            match id_in(path, "/pause"@) {
                Some(id) => Ok(RouteView::Pause(id)),
                None => Err("Invalid item route"@),
            },
        )
    } else if "/resume"@.is_suffix_of(path) {
        Some(
            match id_in(path, "/resume"@) {
                Some(id) => Ok(RouteView::Resume(id)),
                None => Err("Invalid item route"@),
            },
        )
    } else if "/delete"@.is_suffix_of(path) {
        Some(
            match id_in(path, "/delete"@) {
                Some(id) => Ok(RouteView::Delete(id)),
                None => Err("Invalid item route"@),
            },
        )
    } else if "/open-directory"@.is_suffix_of(path) {
        Some(
            match id_in(path, "/open-directory"@) {
                Some(id) => Ok(RouteView::OpenDirectory(id)),
                None => Err("Invalid item route"@),
            },
        )
    } else {
        None
    }
}

/// What a request is for, or why it is for nothing. The method is given in
/// upper case.
pub open spec fn route_of(method: Seq<char>, path: Seq<char>) -> Result<RouteView, Seq<char>> {
    if method == "GET"@ && path == "/api/config"@ {
        Ok(RouteView::Config)
    } else if method == "PUT"@ && path == "/api/config"@ {
        Ok(RouteView::UpdateConfig)
    } else if method == "POST"@ && path == "/api/rss/refresh"@ {
        Ok(RouteView::RefreshSubscription)
    } else if method == "PUT"@ && path == "/api/automation"@ {
        Ok(RouteView::SetAutoDownload)
    } else if method == "GET"@ && path == "/api/items"@ {
        Ok(RouteView::Items)
    } else if method == "GET"@ && path == "/api/status"@ {
        Ok(RouteView::Status)
    } else if method == "GET"@ && path == "/api/startup"@ {
        Ok(RouteView::Startup)
    } else if method == "PUT"@ && path == "/api/startup"@ {
        Ok(RouteView::SetStartup)
    } else if method == "GET"@ && path == "/api/bitcomet/detect"@ {
        Ok(RouteView::DetectBitComet)
    } else if method == "POST"@ && path == "/api/bitcomet/inspect"@ {
        Ok(RouteView::InspectBitComet)
    } else if method == "POST"@ && path == "/api/dialog/download-dir"@ {
        Ok(RouteView::SelectDownloadDir)
    } else if method == "POST"@ && path == "/api/dialog/bitcomet-dir"@ {
        Ok(RouteView::SelectBitCometDir)
    } else if method == "POST"@ && item_route(path) is Some {
        item_route(path)->Some_0
    } else {
        Err("Unsupported local API route: "@ + method + " "@ + path)
    }
}

/// The contents of a route, or of an error.
pub open spec fn routed(r: Result<Route, String>) -> Result<RouteView, Seq<char>> {
    match r {
        Ok(route) => Ok(route@),
        Err(message) => Err(message@),
    }
}

fn route_item(path: &str) -> (r: Option<Result<Route, String>>)
    ensures
        match r {
            Some(route) => item_route(path@) == Some(routed(route)),
            None => item_route(path@) is None,
        },
{
    if ends_with(path, "/download") {
        Some(
            match item_id(path, "/download") {
                Ok(id) => Ok(Route::Submit(id)),
                Err(message) => Err(message),
            },
        )
    } else if ends_with(path, "/ignore") {
        Some(
            match item_id(path, "/ignore") {
                Ok(id) => Ok(Route::Ignore(id)),
                Err(message) => Err(message),
            },
        )
    } else if ends_with(path, "/unignore") {
        Some(
            match item_id(path, "/unignore") {
                Ok(id) => Ok(Route::Unignore(id)),
                Err(message) => Err(message),
            },
        )
    } else if ends_with(path, "/retry") {
        Some(
            match item_id(path, "/retry") {
                Ok(id) => Ok(Route::Retry(id)),
                Err(message) => Err(message),
            },
        )
    } else if ends_with(path, "/pause") {
        Some(
            match item_id(path, "/pause") {
                Ok(id) => Ok(Route::Pause(id)),
                Err(message) => Err(message),
            },
        )
    } else if ends_with(path, "/resume") {
        Some(
            match item_id(path, "/resume") {
                Ok(id) => Ok(Route::Resume(id)),
                Err(message) => Err(message),
            },
        )
    } else if ends_with(path, "/delete") {
        Some(
            match item_id(path, "/delete") {
                Ok(id) => Ok(Route::Delete(id)),
                Err(message) => Err(message),
            },
        )
    } else if ends_with(path, "/open-directory") {
        Some(
            match item_id(path, "/open-directory") {
                Ok(id) => Ok(Route::OpenDirectory(id)),
                Err(message) => Err(message),
            },
        )
    } else {
        None
    }
}

proof fn lemma_methods_differ()
    ensures
        "GET"@ != "PUT"@,
        "GET"@ != "POST"@,
        "PUT"@ != "POST"@,
{
    reveal_strlit("GET");
    reveal_strlit("PUT");
    reveal_strlit("POST");
    assert("GET"@[0] != "PUT"@[0]);
    assert("PUT"@[1] != "POST"@[1]);
}

/// Decides what a request is for. The case of the method does not matter.
pub fn route_request(method: &str, path: &str) -> (r: Result<Route, String>)
    ensures
        routed(r) == route_of(upper(method@), path@),
{
    let method = to_upper(method);
    proof {
        lemma_methods_differ();
    }
    if same_text(&method, "GET") {
        if same_text(path, "/api/config") {
            return Ok(Route::Config);
        }
        if same_text(path, "/api/items") {
            return Ok(Route::Items);
        }
        if same_text(path, "/api/status") {
            return Ok(Route::Status);
        }
        if same_text(path, "/api/startup") {
            return Ok(Route::Startup);
        }
        if same_text(path, "/api/bitcomet/detect") {
            return Ok(Route::DetectBitComet);
        }
    } else if same_text(&method, "PUT") {
        if same_text(path, "/api/config") {
            return Ok(Route::UpdateConfig);
        }
        if same_text(path, "/api/automation") {
            return Ok(Route::SetAutoDownload);
        }
        if same_text(path, "/api/startup") {
            return Ok(Route::SetStartup);
        }
    } else if same_text(&method, "POST") {
        if same_text(path, "/api/rss/refresh") {
            return Ok(Route::RefreshSubscription);
        }
        if same_text(path, "/api/bitcomet/inspect") {
            return Ok(Route::InspectBitComet);
        }
        if same_text(path, "/api/dialog/download-dir") {
            return Ok(Route::SelectDownloadDir);
        }
        if same_text(path, "/api/dialog/bitcomet-dir") {
            return Ok(Route::SelectBitCometDir);
        }
        if let Some(route) = route_item(path) {
            return route;
        }
    }
    let mut text = joined("Unsupported local API route: ", &method);
    text.append(" ");
    text.append(path);
    Err(text)
}

/// The text of a member of the body of a request, or an empty one.
pub fn body_string(body: &Option<Json>, key: &str) -> (r: String)
    ensures
        r@ == match body {
            Some(body) => match text_in(member_of(*body, key@)) {
                Some(text) => text,
                None => Seq::empty(),
            },
            None => Seq::empty(),
        },
{
    match body {
        Some(body) => match body.member_text(key) {
            Some(text) => text,
            None => String::new(),
        },
        None => String::new(),
    }
}

/// Whether a member of the body of a request is true.
pub fn body_flag(body: &Option<Json>, key: &str) -> (r: bool)
    ensures
        r == (body matches Some(body) && member_of(*body, key@) == Some(Json::Bool(true))),
{
    match body {
        Some(body) => body.member_is_true(key),
        None => false,
    }
}

proof fn lemma_id_is_read_back(id: Seq<char>, suffix: Seq<char>)
    requires
        id.len() > 0,
        !id.contains('/'),
    ensures
        id_in("/api/items/"@ + id + suffix, suffix) == Some(id),
        suffix.is_suffix_of("/api/items/"@ + id + suffix),
{
    let prefix = "/api/items/"@;
    let path = prefix + id + suffix;
    let rest = path.skip(prefix.len() as int);
    assert(path.subrange(0, prefix.len() as int) =~= prefix);
    assert(rest =~= id + suffix);
    assert(rest.subrange(rest.len() - suffix.len(), rest.len() as int) =~= suffix);
    assert(rest.take(rest.len() - suffix.len()) =~= id);
    assert(path.subrange(path.len() - suffix.len(), path.len() as int) =~= suffix);
}

proof fn lemma_item_path_is_no_other(path: Seq<char>)
    requires
        "/api/items/"@.is_prefix_of(path),
    ensures
        path != "/api/rss/refresh"@,
        path != "/api/bitcomet/inspect"@,
        path != "/api/dialog/download-dir"@,
        path != "/api/dialog/bitcomet-dir"@,
{
    reveal_strlit("/api/items/");
    reveal_strlit("/api/rss/refresh");
    reveal_strlit("/api/bitcomet/inspect");
    reveal_strlit("/api/dialog/download-dir");
    reveal_strlit("/api/dialog/bitcomet-dir");
    assert(path.subrange(0, 11)[5] == path[5]);
}

/// Whether two texts differ in one of the places counted from the end.
proof fn lemma_other_suffix(path: Seq<char>, suffix: Seq<char>, other: Seq<char>, back: int)
    requires
        suffix.is_suffix_of(path),
        1 <= back <= suffix.len(),
        back <= other.len(),
        suffix[suffix.len() - back] != other[other.len() - back],
    ensures
        !other.is_suffix_of(path),
{
    assert(path.subrange(path.len() - suffix.len(), path.len() as int)[suffix.len() - back]
        == path[path.len() - back]);
    if other.is_suffix_of(path) {
        assert(path.subrange(path.len() - other.len(), path.len() as int)[other.len() - back]
            == path[path.len() - back]);
    }
}

/// Each action on an item has a route, and the route gives the identifier
/// back that stands in the path.
pub proof fn law_item_routes_are_read_back(id: Seq<char>)
    requires
        id.len() > 0,
        !id.contains('/'),
    ensures
        route_of("POST"@, "/api/items/"@ + id + "/download"@) == Ok::<_, Seq<char>>(
            RouteView::Submit(id),
        ),
        route_of("POST"@, "/api/items/"@ + id + "/ignore"@) == Ok::<_, Seq<char>>(
            RouteView::Ignore(id),
        ),
        route_of("POST"@, "/api/items/"@ + id + "/unignore"@) == Ok::<_, Seq<char>>(
            RouteView::Unignore(id),
        ),
        route_of("POST"@, "/api/items/"@ + id + "/retry"@) == Ok::<_, Seq<char>>(
            RouteView::Retry(id),
        ),
        route_of("POST"@, "/api/items/"@ + id + "/pause"@) == Ok::<_, Seq<char>>(
            RouteView::Pause(id),
        ),
        route_of("POST"@, "/api/items/"@ + id + "/resume"@) == Ok::<_, Seq<char>>(
            RouteView::Resume(id),
        ),
        route_of("POST"@, "/api/items/"@ + id + "/delete"@) == Ok::<_, Seq<char>>(
            RouteView::Delete(id),
        ),
        route_of("POST"@, "/api/items/"@ + id + "/open-directory"@) == Ok::<_, Seq<char>>(
            RouteView::OpenDirectory(id),
        ),
{
    lemma_methods_differ();
    lemma_submit_route(id);
    lemma_ignore_route(id);
    lemma_unignore_route(id);
    lemma_retry_route(id);
    lemma_pause_route(id);
    lemma_resume_route(id);
    lemma_delete_route(id);
    lemma_open_route(id);
}

proof fn lemma_prefix(id: Seq<char>, suffix: Seq<char>)
    ensures
        "/api/items/"@.is_prefix_of("/api/items/"@ + id + suffix),
{
    let prefix = "/api/items/"@;
    assert((prefix + id + suffix).subrange(0, prefix.len() as int) =~= prefix);
}

proof fn lemma_submit_route(id: Seq<char>)
    requires
        id.len() > 0,
        !id.contains('/'),
    ensures
        route_of("POST"@, "/api/items/"@ + id + "/download"@) == Ok::<_, Seq<char>>(
            RouteView::Submit(id),
        ),
{
    let path = "/api/items/"@ + id + "/download"@;
    lemma_methods_differ();
    lemma_prefix(id, "/download"@);
    lemma_item_path_is_no_other(path);
    lemma_id_is_read_back(id, "/download"@);
}

proof fn lemma_ignore_route(id: Seq<char>)
    requires
        id.len() > 0,
        !id.contains('/'),
    ensures
        route_of("POST"@, "/api/items/"@ + id + "/ignore"@) == Ok::<_, Seq<char>>(
            RouteView::Ignore(id),
        ),
{
    let path = "/api/items/"@ + id + "/ignore"@;
    lemma_methods_differ();
    lemma_prefix(id, "/ignore"@);
    lemma_item_path_is_no_other(path);
    lemma_id_is_read_back(id, "/ignore"@);
    reveal_strlit("/ignore");
    reveal_strlit("/download");
    lemma_other_suffix(path, "/ignore"@, "/download"@, 1);
}

proof fn lemma_unignore_route(id: Seq<char>)
    requires
        id.len() > 0,
        !id.contains('/'),
    ensures
        route_of("POST"@, "/api/items/"@ + id + "/unignore"@) == Ok::<_, Seq<char>>(
            RouteView::Unignore(id),
        ),
{
    let path = "/api/items/"@ + id + "/unignore"@;
    lemma_methods_differ();
    lemma_prefix(id, "/unignore"@);
    lemma_item_path_is_no_other(path);
    lemma_id_is_read_back(id, "/unignore"@);
    reveal_strlit("/unignore");
    reveal_strlit("/download");
    lemma_other_suffix(path, "/unignore"@, "/download"@, 1);
    reveal_strlit("/ignore");
    lemma_other_suffix(path, "/unignore"@, "/ignore"@, 7);
}

proof fn lemma_retry_route(id: Seq<char>)
    requires
        id.len() > 0,
        !id.contains('/'),
    ensures
        route_of("POST"@, "/api/items/"@ + id + "/retry"@) == Ok::<_, Seq<char>>(
            RouteView::Retry(id),
        ),
{
    let path = "/api/items/"@ + id + "/retry"@;
    lemma_methods_differ();
    lemma_prefix(id, "/retry"@);
    lemma_item_path_is_no_other(path);
    lemma_id_is_read_back(id, "/retry"@);
    reveal_strlit("/retry");
    reveal_strlit("/download");
    lemma_other_suffix(path, "/retry"@, "/download"@, 1);
    reveal_strlit("/ignore");
    lemma_other_suffix(path, "/retry"@, "/ignore"@, 1);
    reveal_strlit("/unignore");
    lemma_other_suffix(path, "/retry"@, "/unignore"@, 1);
}

proof fn lemma_pause_route(id: Seq<char>)
    requires
        id.len() > 0,
        !id.contains('/'),
    ensures
        route_of("POST"@, "/api/items/"@ + id + "/pause"@) == Ok::<_, Seq<char>>(
            RouteView::Pause(id),
        ),
{
    let path = "/api/items/"@ + id + "/pause"@;
    lemma_methods_differ();
    lemma_prefix(id, "/pause"@);
    lemma_item_path_is_no_other(path);
    lemma_id_is_read_back(id, "/pause"@);
    reveal_strlit("/pause");
    reveal_strlit("/download");
    lemma_other_suffix(path, "/pause"@, "/download"@, 1);
    reveal_strlit("/ignore");
    lemma_other_suffix(path, "/pause"@, "/ignore"@, 2);
    reveal_strlit("/unignore");
    lemma_other_suffix(path, "/pause"@, "/unignore"@, 2);
    reveal_strlit("/retry");
    lemma_other_suffix(path, "/pause"@, "/retry"@, 1);
}

proof fn lemma_resume_route(id: Seq<char>)
    requires
        id.len() > 0,
        !id.contains('/'),
    ensures
        route_of("POST"@, "/api/items/"@ + id + "/resume"@) == Ok::<_, Seq<char>>(
            RouteView::Resume(id),
        ),
{
    let path = "/api/items/"@ + id + "/resume"@;
    lemma_methods_differ();
    lemma_prefix(id, "/resume"@);
    lemma_item_path_is_no_other(path);
    lemma_id_is_read_back(id, "/resume"@);
    reveal_strlit("/resume");
    reveal_strlit("/download");
    lemma_other_suffix(path, "/resume"@, "/download"@, 1);
    reveal_strlit("/ignore");
    lemma_other_suffix(path, "/resume"@, "/ignore"@, 2);
    reveal_strlit("/unignore");
    lemma_other_suffix(path, "/resume"@, "/unignore"@, 2);
    reveal_strlit("/retry");
    lemma_other_suffix(path, "/resume"@, "/retry"@, 1);
    reveal_strlit("/pause");
    lemma_other_suffix(path, "/resume"@, "/pause"@, 2);
}

proof fn lemma_delete_route(id: Seq<char>)
    requires
        id.len() > 0,
        !id.contains('/'),
    ensures
        route_of("POST"@, "/api/items/"@ + id + "/delete"@) == Ok::<_, Seq<char>>(
            RouteView::Delete(id),
        ),
{
    let path = "/api/items/"@ + id + "/delete"@;
    lemma_methods_differ();
    lemma_prefix(id, "/delete"@);
    lemma_item_path_is_no_other(path);
    lemma_id_is_read_back(id, "/delete"@);
    reveal_strlit("/delete");
    reveal_strlit("/download");
    lemma_other_suffix(path, "/delete"@, "/download"@, 1);
    reveal_strlit("/ignore");
    lemma_other_suffix(path, "/delete"@, "/ignore"@, 2);
    reveal_strlit("/unignore");
    lemma_other_suffix(path, "/delete"@, "/unignore"@, 2);
    reveal_strlit("/retry");
    lemma_other_suffix(path, "/delete"@, "/retry"@, 1);
    reveal_strlit("/pause");
    lemma_other_suffix(path, "/delete"@, "/pause"@, 2);
    reveal_strlit("/resume");
    lemma_other_suffix(path, "/delete"@, "/resume"@, 2);
}

proof fn lemma_open_route(id: Seq<char>)
    requires
        id.len() > 0,
        !id.contains('/'),
    ensures
        route_of("POST"@, "/api/items/"@ + id + "/open-directory"@) == Ok::<_, Seq<char>>(
            RouteView::OpenDirectory(id),
        ),
{
    let path = "/api/items/"@ + id + "/open-directory"@;
    lemma_methods_differ();
    lemma_prefix(id, "/open-directory"@);
    lemma_item_path_is_no_other(path);
    lemma_id_is_read_back(id, "/open-directory"@);
    reveal_strlit("/open-directory");
    reveal_strlit("/download");
    lemma_other_suffix(path, "/open-directory"@, "/download"@, 1);
    reveal_strlit("/ignore");
    lemma_other_suffix(path, "/open-directory"@, "/ignore"@, 1);
    reveal_strlit("/unignore");
    lemma_other_suffix(path, "/open-directory"@, "/unignore"@, 1);
    reveal_strlit("/retry");
    lemma_other_suffix(path, "/open-directory"@, "/retry"@, 3);
    reveal_strlit("/pause");
    lemma_other_suffix(path, "/open-directory"@, "/pause"@, 1);
    reveal_strlit("/resume");
    lemma_other_suffix(path, "/open-directory"@, "/resume"@, 1);
    reveal_strlit("/delete");
    lemma_other_suffix(path, "/open-directory"@, "/delete"@, 1);
}

} // verus!
