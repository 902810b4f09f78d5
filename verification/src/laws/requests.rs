//! What requests to the application are for, and which responses are accepted.

use vstd::prelude::*;
use vstd::string::*;

use crate::network::{body_of, head_fault};
use crate::number::decimal_text;
use crate::routes::{id_in, route_of, RouteView};

verus! {

proof fn lemma_paths_differ()
    ensures
        "GET"@ != "PUT"@,
        "GET"@ != "POST"@,
        "PUT"@ != "POST"@,
        "/api/config"@.len() == 11,
        "/api/rss/refresh"@.len() == 16,
        "/api/automation"@.len() == 15,
        "/api/items"@.len() == 10,
        "/api/status"@.len() == 11,
        "/api/startup"@.len() == 12,
        "/api/bitcomet/detect"@.len() == 20,
        "/api/bitcomet/inspect"@.len() == 21,
        "/api/dialog/download-dir"@.len() == 24,
        "/api/dialog/bitcomet-dir"@.len() == 24,
        "/api/config"@ != "/api/status"@,
        "/api/dialog/download-dir"@ != "/api/dialog/bitcomet-dir"@,
{
    reveal_strlit("GET");
    reveal_strlit("PUT");
    reveal_strlit("POST");
    assert("GET"@[0] != "PUT"@[0]);
    assert("PUT"@[1] != "POST"@[1]);
    reveal_strlit("/api/config");
    reveal_strlit("/api/rss/refresh");
    reveal_strlit("/api/automation");
    reveal_strlit("/api/items");
    reveal_strlit("/api/status");
    reveal_strlit("/api/startup");
    reveal_strlit("/api/bitcomet/detect");
    reveal_strlit("/api/bitcomet/inspect");
    reveal_strlit("/api/dialog/download-dir");
    reveal_strlit("/api/dialog/bitcomet-dir");
    assert("/api/config"@[5] != "/api/status"@[5]);
    assert("/api/dialog/download-dir"@[12] != "/api/dialog/bitcomet-dir"@[12]);
}

/// Each request that names no item has one method and one path, and no other
/// request is for the same.
pub proof fn law_requests_are_told_by_method_and_path(method: Seq<char>, path: Seq<char>)
    ensures
        ({
            let route = route_of(method, path);
            &&& route == Ok::<_, Seq<char>>(RouteView::Config) <==> method == "GET"@ && path
                == "/api/config"@
            &&& route == Ok::<_, Seq<char>>(RouteView::UpdateConfig) <==> method == "PUT"@ && path
                == "/api/config"@
            &&& route == Ok::<_, Seq<char>>(RouteView::RefreshSubscription) <==> method == "POST"@
                && path == "/api/rss/refresh"@
            &&& route == Ok::<_, Seq<char>>(RouteView::SetAutoDownload) <==> method == "PUT"@
                && path == "/api/automation"@
            &&& route == Ok::<_, Seq<char>>(RouteView::Items) <==> method == "GET"@ && path
                == "/api/items"@
            &&& route == Ok::<_, Seq<char>>(RouteView::Status) <==> method == "GET"@ && path
                == "/api/status"@
            &&& route == Ok::<_, Seq<char>>(RouteView::Startup) <==> method == "GET"@ && path
                == "/api/startup"@
            &&& route == Ok::<_, Seq<char>>(RouteView::SetStartup) <==> method == "PUT"@ && path
                == "/api/startup"@
            &&& route == Ok::<_, Seq<char>>(RouteView::DetectBitComet) <==> method == "GET"@ && path
                == "/api/bitcomet/detect"@
            &&& route == Ok::<_, Seq<char>>(RouteView::InspectBitComet) <==> method == "POST"@
                && path == "/api/bitcomet/inspect"@
            &&& route == Ok::<_, Seq<char>>(RouteView::SelectDownloadDir) <==> method == "POST"@
                && path == "/api/dialog/download-dir"@
            &&& route == Ok::<_, Seq<char>>(RouteView::SelectBitCometDir) <==> method == "POST"@
                && path == "/api/dialog/bitcomet-dir"@
        }),
{
    lemma_paths_differ();
}

/// A request that names an item is for the item of the path, and for nothing
/// else: the path begins like one of items, ends with what is wanted, and has
/// the identifier between.
pub proof fn law_item_requests_name_their_item(method: Seq<char>, path: Seq<char>, id: Seq<char>)
    ensures
        ({
            let route = route_of(method, path);
            let named = |suffix: Seq<char>|
                method == "POST"@ && path == "/api/items/"@ + id + suffix && id.len() > 0
                    && !id.contains('/');
            &&& route == Ok::<_, Seq<char>>(RouteView::Submit(id)) ==> named("/download"@)
            &&& route == Ok::<_, Seq<char>>(RouteView::Ignore(id)) ==> named("/ignore"@)
            &&& route == Ok::<_, Seq<char>>(RouteView::Unignore(id)) ==> named("/unignore"@)
            &&& route == Ok::<_, Seq<char>>(RouteView::Retry(id)) ==> named("/retry"@)
            &&& route == Ok::<_, Seq<char>>(RouteView::Pause(id)) ==> named("/pause"@)
            &&& route == Ok::<_, Seq<char>>(RouteView::Resume(id)) ==> named("/resume"@)
            &&& route == Ok::<_, Seq<char>>(RouteView::Delete(id)) ==> named("/delete"@)
            &&& route == Ok::<_, Seq<char>>(RouteView::OpenDirectory(id)) ==> named(
                "/open-directory"@,
            )
        }),
{
    lemma_id_in(path, "/download"@, id);
    lemma_id_in(path, "/ignore"@, id);
    lemma_id_in(path, "/unignore"@, id);
    lemma_id_in(path, "/retry"@, id);
    lemma_id_in(path, "/pause"@, id);
    lemma_id_in(path, "/resume"@, id);
    lemma_id_in(path, "/delete"@, id);
    lemma_id_in(path, "/open-directory"@, id);
}

proof fn lemma_id_in(path: Seq<char>, suffix: Seq<char>, id: Seq<char>)
    ensures
        id_in(path, suffix) == Some(id) ==> path == "/api/items/"@ + id + suffix && id.len() > 0
            && !id.contains('/'),
{
    if id_in(path, suffix) == Some(id) {
        let prefix = "/api/items/"@;
        let rest = path.skip(prefix.len() as int);
        assert(rest =~= id + suffix);
        assert(path =~= prefix + rest);
        assert(path =~= prefix + id + suffix);
    }
}

/// A response is read on where it came with a status of success and announces
/// no length above the limit; else it is told what is wrong with it.
pub proof fn law_responses_are_checked_before_they_are_read(
    status: u16,
    length: Option<u64>,
    fault: String,
    label: Seq<char>,
    limit: usize,
)
    ensures
        head_fault(Ok((status, length)), label, limit) is None <==> 200 <= status < 300 && (
        length is None || length->Some_0 <= limit),
        head_fault(Err(fault), label, limit) == Some(label + " request failed: "@ + fault@),
        status < 200 || status >= 300 ==> head_fault(Ok((status, length)), label, limit) == Some(
            label + " request failed: HTTP "@ + decimal_text(status as nat),
        ),
        200 <= status < 300 && length is Some && length->Some_0 > limit ==> head_fault(
            Ok((status, length)),
            label,
            limit,
        ) == Some(
            label + " response exceeds "@ + decimal_text(limit as nat) + " bytes"@,
        ),
{
}

/// A body is accepted as it is up to the limit, and refused above it.
pub proof fn law_bodies_are_accepted_up_to_the_limit(
    bytes: Vec<u8>,
    fault: String,
    label: Seq<char>,
    limit: usize,
)
    ensures
        bytes@.len() <= limit ==> body_of(Ok(bytes), label, limit) == Ok::<_, Seq<char>>(bytes@),
        bytes@.len() > limit ==> body_of(Ok(bytes), label, limit) == Err::<Seq<u8>, _>(
            label + " response exceeds "@ + decimal_text(limit as nat) + " bytes"@,
        ),
        body_of(Err(fault), label, limit) == Err::<Seq<u8>, _>(
            label + " response could not be read: "@ + fault@,
        ),
{
}

} // verus!
