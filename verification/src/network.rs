//! What is accepted of a response: its status and its size.

use vstd::prelude::*;
use vstd::string::*;

use crate::models::ProxyMode;
use crate::number::{decimal, decimal_text};
use crate::text::joined;

verus! {

/// The most bytes that a feed may have.
pub const RSS_MAX_BYTES: usize = 5 * 1024 * 1024;

/// The most bytes that a torrent file may have.
pub const TORRENT_MAX_BYTES: usize = 20 * 1024 * 1024;

/// The seconds that connecting may take.
pub const CONNECT_SECONDS: u64 = 10;

/// The seconds that a request may take.
pub const REQUEST_SECONDS: u64 = 30;

/// The name under which requests are sent.
pub fn user_agent(version: &str) -> (r: String)
    ensures
        r@ == "MikanRssDownloader/"@ + version@,
{
    joined("MikanRssDownloader/", version)
}

/// Whether requests bypass the proxy of the system.
pub fn bypasses_proxy(mode: &ProxyMode) -> (r: bool)
    ensures
        r == (*mode == ProxyMode::NoProxy),
{
    match mode {
        ProxyMode::NoProxy => true,
        ProxyMode::System => false,
    }
}

/// What is said of a response that is too long.
pub open spec fn too_long(label: Seq<char>, limit: usize) -> Seq<char> {
    label + " response exceeds "@ + decimal_text(limit as nat) + " bytes"@
}

/// Why a response is refused before its body is read: what is said of one
/// that did not come, a status that is no success, or a length above the
/// limit.
pub open spec fn head_fault(
    sent: Result<(u16, Option<u64>), String>,
    label: Seq<char>,
    limit: usize,
) -> Option<Seq<char>> {
    match sent {
        Err(fault) => Some(label + " request failed: "@ + fault@),
        Ok((status, length)) => if !(200 <= status <= 299) {
            Some(label + " request failed: HTTP "@ + decimal_text(status as nat))
        } else if length matches Some(length) && length > limit {
            Some(too_long(label, limit))
        } else {
            None
        },
    }
}

/// The body of a response, or why it is refused.
pub open spec fn body_of(
    read: Result<Vec<u8>, String>,
    label: Seq<char>,
    limit: usize,
) -> Result<Seq<u8>, Seq<char>> {
    match read {
        Err(fault) => Err(label + " response could not be read: "@ + fault@),
        Ok(bytes) => if bytes@.len() > limit {
            Err(too_long(label, limit))
        } else {
            Ok(bytes@)
        },
    }
}

fn limit_message(label: &str, limit: usize) -> (r: String)
    ensures
        r@ == too_long(label@, limit),
{
    let mut text = joined(label, " response exceeds ");
    text.append(&decimal(limit as u64));
    text.append(" bytes");
    text
}

/// Checks a response before its body is read: its status, and the length that
/// it announces.
pub fn check_head(
    sent: &Result<(u16, Option<u64>), String>,
    label: &str,
    limit: usize,
) -> (r: Result<(), String>)
    ensures
        match r {
            Ok(()) => head_fault(*sent, label@, limit) is None,
            Err(message) => head_fault(*sent, label@, limit) == Some(message@),
        },
{
    match sent {
        Err(fault) => {
            let mut text = joined(label, " request failed: ");
            text.append(fault);
            Err(text)
        },
        Ok((status, length)) => {
            if *status < 200 || *status > 299 {
                let mut text = joined(label, " request failed: HTTP ");
                text.append(&decimal(*status as u64));
                return Err(text);
            }
            if let Some(length) = length {
                if *length > limit as u64 {
                    return Err(limit_message(label, limit));
                }
            }
            Ok(())
        },
    }
}

/// How much of a body is read: one byte more than the limit, which shows that
/// it is above it.
pub fn read_limit(limit: usize) -> (r: u64)
    requires
        limit < u64::MAX,
    ensures
        r == limit + 1,
{
    limit as u64 + 1
}

/// Checks the body of a response.
pub fn check_body(read: Result<Vec<u8>, String>, label: &str, limit: usize) -> (r: Result<
    Vec<u8>,
    String,
>)
    ensures
        match r {
            Ok(bytes) => body_of(read, label@, limit) == Ok::<_, Seq<char>>(bytes@),
            Err(message) => body_of(read, label@, limit) == Err::<Seq<u8>, _>(message@),
        },
{
    match read {
        Err(fault) => {
            let mut text = joined(label, " response could not be read: ");
            text.append(&fault);
            Err(text)
        },
        Ok(bytes) => if bytes.len() > limit {
            Err(limit_message(label, limit))
        } else {
            Ok(bytes)
        },
    }
}

/// Whatever is accepted is no longer than the limit.
pub proof fn law_accepted_body_is_within_limit(
    read: Result<Vec<u8>, String>,
    label: Seq<char>,
    limit: usize,
)
    ensures
        body_of(read, label, limit) matches Ok(bytes) ==> bytes.len() <= limit,
{
}

} // verus!
