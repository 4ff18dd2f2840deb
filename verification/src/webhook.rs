//! The routing decisions around the webhook endpoint.
//!
//! These functions decide; the HTTP layer that parses requests and writes
//! responses, and the RCON exchange itself, live outside this crate and
//! act on what is decided here.

use crate::bytes::{bytes_eq, has_prefix};
use crate::error::Error;
use crate::lookup::{spec_resolve, BlindedTable};
use vstd::prelude::*;
use vstd::slice::slice_subrange;
use vstd::utf8::encode_utf8;

verus! {

/// The method bytes an inbound webhook call must use
pub open spec fn post_method() -> Seq<u8> {
    encode_utf8("POST"@)
}

/// The path prefix under which the webhook endpoint is called
pub open spec fn api_prefix() -> Seq<u8> {
    encode_utf8("/api/"@)
}

/// Whether a target path begins with the webhook prefix
pub open spec fn is_api_target(target: Seq<u8>) -> bool {
    target.len() >= api_prefix().len() && target.subrange(0, api_prefix().len() as int)
        == api_prefix()
}

/// Where an inbound request is routed
pub enum Route {
    /// A target under the webhook prefix: the webhook endpoint, whatever
    /// the method
    Webhook,
    /// A GET of the root: the served site
    Site,
    /// Anything else: rejected with 404 and no body
    Rejected,
}

/// Routes a request by its method and target. Every request whose target
/// lies under the webhook prefix goes to the webhook endpoint, whatever
/// its method: the endpoint itself answers 405 to anything but a POST. A
/// GET of the root serves the site; the rest is rejected.
pub fn route(method: &[u8], target: &[u8]) -> (r: Route)
    ensures
        r is Webhook <==> is_api_target(target@),
        r is Site <==> (!is_api_target(target@) && method@ == encode_utf8("GET"@) && target@
            == encode_utf8("/"@)),
{
    if has_prefix(target, "/api/".as_bytes()) {
        Route::Webhook
    } else if bytes_eq(method, "GET".as_bytes()) && bytes_eq(target, "/".as_bytes()) {
        Route::Site
    } else {
        Route::Rejected
    }
}

/// The webhook endpoint's decision for one request, made before any RCON
/// exchange
pub enum WebhookOutcome {
    /// Respond with this status and no body
    Reject(u16),
    /// Execute this command over RCON
    Command(String),
}

/// Decides a webhook call: any method but POST is 405; a POST whose name,
/// the raw bytes after the prefix, resolves to no command is 404; a POST
/// whose name resolves yields the command to execute.
pub fn webhook(method: &[u8], target: &[u8], table: &BlindedTable) -> (r: WebhookOutcome)
    requires
        table.wf(),
        is_api_target(target@),
    ensures
        method@ != post_method() ==> r == WebhookOutcome::Reject(405u16),
        method@ == post_method() ==> (match spec_resolve(
            table.contents(),
            table.secret_view(),
            target@.skip(api_prefix().len() as int),
        ) {
            Some(c) => r matches WebhookOutcome::Command(cmd) && cmd@ == c,
            None => r == WebhookOutcome::Reject(404u16),
        }),
{
    if !bytes_eq(method, "POST".as_bytes()) {
        return WebhookOutcome::Reject(405);
    }
    let prefix: &[u8] = "/api/".as_bytes();
    let plen: usize = prefix.len();
    let name: &[u8] = slice_subrange(target, plen, target.len());
    proof {
        assert(name@ =~= target@.skip(api_prefix().len() as int));
    }
    match table.resolve(name) {
        Some(command) => WebhookOutcome::Command(command),
        None => WebhookOutcome::Reject(404),
    }
}

/// Maps an RCON execution outcome onto the transport-level reply: success
/// is 200 with the reply text as the body, any failure 500 with no body.
/// The failure detail is for the log, never for the caller.
pub fn webhook_reply(result: Result<String, Error>) -> (r: (u16, Option<String>))
    ensures
        result matches Ok(text) ==> r == (200u16, Some(text)),
        result is Err ==> r.0 == 500 && r.1 is None,
{
    match result {
        Ok(text) => (200, Some(text)),
        Err(_) => (500, None),
    }
}

} // verus!
