//! The ledger client's wire form: each ledger operation as an HTTP request
//! with its exact filters, headers and JSON body.

use vstd::prelude::*;
use crate::ledger::{AuthConfig, LedgerOp};
use crate::text::{decimal, decimal_of};

verus! {

broadcast use vstd::string::group_string_axioms;

/// The HTTP method of a request.
#[derive(Clone, Copy, Debug, PartialEq, Eq, Structural)]
pub enum Method {
    Get,
    Post,
    Patch,
}

/// The body of a request.
#[derive(Clone, Debug)]
pub enum RequestBody {
    Empty,
    /// A JSON document.
    Json(String),
    /// A multipart form holding the archive image as one part, under this
    /// file name, of type `application/zip`.
    Archive(String),
}

/// A request to the remote store.
#[derive(Clone, Debug)]
pub struct HttpRequest {
    pub method: Method,
    pub url: String,
    pub headers: Vec<(String, String)>,
    pub body: RequestBody,
}

/// Name for how `serde_json` writes a string as a JSON string literal.
pub uninterp spec fn json_quoted(s: Seq<char>) -> Seq<char>;

/// Relies on `serde_json::to_string` on a `str`: the JSON string literal
/// that holds the text. Serialising a `str` writes into a `Vec` and does not
/// fail.
#[verifier::external_body]
fn json_string(s: &str) -> (r: Option<String>)
    ensures
        r is Some,
        r->0@ == json_quoted(s@),
{
    serde_json::to_string(s).ok()
}

/// Appends the JSON string literal of `v`.
fn push_json(out: &mut String, v: &str)
    ensures
        final(out)@ == old(out)@ + json_quoted(v@),
{
    let q = json_string(v).unwrap();
    out.append(q.as_str());
}

/// The method of the request for an operation.
pub open spec fn method_of(op: LedgerOp) -> Method {
    match op {
        LedgerOp::FindDevice { .. } | LedgerOp::FindItem { .. } | LedgerOp::LatestFingerprint { .. } => Method::Get,
        LedgerOp::ClearLatest { .. } => Method::Patch,
        _ => Method::Post,
    }
}

/// The URL of the request for an operation: lookups filter by equality on
/// the user and the machine id, the slug, or the item with its latest mark.
pub open spec fn url_of(auth: AuthConfig, op: LedgerOp) -> Seq<char> {
    match op {
        LedgerOp::FindDevice { machine_id } => auth.url@ + "/rest/v1/devices?user_id=eq."@ + auth.user_id@
            + "&machine_id=eq."@ + machine_id@ + "&select=id"@,
        LedgerOp::CreateDevice { .. } => auth.url@ + "/rest/v1/devices"@,
        LedgerOp::FindItem { slug } => auth.url@ + "/rest/v1/games?user_id=eq."@ + auth.user_id@ + "&slug=eq."@
            + slug@ + "&select=id"@,
        LedgerOp::CreateItem { .. } => auth.url@ + "/rest/v1/games"@,
        LedgerOp::UpsertPath { .. } => auth.url@ + "/rest/v1/game_paths"@,
        LedgerOp::LatestFingerprint { item_id } => auth.url@ + "/rest/v1/save_versions?game_id=eq."@ + item_id@
            + "&is_latest=eq.true&select=checksum"@,
        LedgerOp::Upload { storage_path, .. } => auth.url@ + "/storage/v1/object/saves/"@ + storage_path@,
        LedgerOp::ClearLatest { item_id } => auth.url@ + "/rest/v1/save_versions?game_id=eq."@ + item_id@
            + "&is_latest=eq.true"@,
        LedgerOp::InsertVersion { .. } => auth.url@ + "/rest/v1/save_versions"@,
    }
}

/// The headers every request carries: the API key and the bearer token.
pub open spec fn auth_headers(auth: AuthConfig) -> Seq<(Seq<char>, Seq<char>)> {
    seq![("apikey"@, auth.key@), ("Authorization"@, "Bearer "@ + auth.token@)]
}

/// The headers of the request for an operation: creates and upserts ask
/// the store to merge on conflict where the target has a uniqueness
/// constraint, and each JSON body is declared as such.
pub open spec fn headers_of(auth: AuthConfig, op: LedgerOp) -> Seq<(Seq<char>, Seq<char>)> {
    let json = ("Content-Type"@, "application/json"@);
    match op {
        LedgerOp::CreateDevice { .. } => auth_headers(auth).push(
            ("Prefer"@, "return=representation,resolution=merge-duplicates"@),
        ).push(json),
        LedgerOp::CreateItem { .. } => auth_headers(auth).push(
            ("Prefer"@, "return=representation,resolution=merge-duplicates"@),
        ).push(json),
        LedgerOp::UpsertPath { .. } => auth_headers(auth).push(("Prefer"@, "resolution=merge-duplicates"@)).push(json),
        LedgerOp::ClearLatest { .. } | LedgerOp::InsertVersion { .. } => auth_headers(auth).push(json),
        _ => auth_headers(auth),
    }
}

/// The JSON text of a boolean.
pub open spec fn json_bool(b: bool) -> Seq<char> {
    if b { "true"@ } else { "false"@ }
}

/// The JSON body of the request for an operation, with its keys in sorted
/// order; `None` for a request without a JSON body.
pub open spec fn json_body_of(auth: AuthConfig, op: LedgerOp) -> Option<Seq<char>> {
    match op {
        LedgerOp::CreateDevice { machine_id, name, os } => Some(
            "{\"machine_id\":"@ + json_quoted(machine_id@) + ",\"name\":"@ + json_quoted(name@) + ",\"os\":"@
                + json_quoted(os@) + ",\"type\":\"desktop\",\"user_id\":"@ + json_quoted(auth.user_id@) + "}"@,
        ),
        LedgerOp::CreateItem { name, slug, cover_url } => Some(
            "{\"cover_url\":"@ + match cover_url {
                Some(c) => json_quoted(c@),
                None => "null"@,
            } + ",\"name\":"@ + json_quoted(name@) + ",\"slug\":"@ + json_quoted(slug@) + ",\"user_id\":"@
                + json_quoted(auth.user_id@) + "}"@,
        ),
        LedgerOp::UpsertPath { item_id, device_id, local_path, sync_enabled } => Some(
            "{\"device_id\":"@ + json_quoted(device_id@) + ",\"game_id\":"@ + json_quoted(item_id@)
                + ",\"local_path\":"@ + json_quoted(local_path@) + ",\"sync_enabled\":"@ + json_bool(sync_enabled)
                + "}"@,
        ),
        LedgerOp::ClearLatest { .. } => Some("{\"is_latest\":false}"@),
        LedgerOp::InsertVersion { version } => Some(
            "{\"checksum\":"@ + json_quoted(version.checksum@) + ",\"device_id\":"@ + json_quoted(version.device_id@)
                + ",\"file_path\":"@ + json_quoted(version.file_path@) + ",\"file_size\":"@
                + decimal_of(version.file_size as nat) + ",\"game_id\":"@ + json_quoted(version.item_id@)
                + ",\"id\":"@ + json_quoted(version.id@) + ",\"is_latest\":true}"@,
        ),
        _ => None,
    }
}

fn header(name: &str, value: String) -> (r: (String, String))
    ensures
        r.0@ == name@,
        r.1@ == value@,
{
    (String::from_str(name), value)
}

fn literal(s: &str) -> (r: String)
    ensures
        r@ == s@,
{
    String::from_str(s)
}

fn json_body(auth: &AuthConfig, op: &LedgerOp) -> (r: Option<String>)
    ensures
        r is Some <==> json_body_of(*auth, *op) is Some,
        r is Some ==> r->0@ == json_body_of(*auth, *op)->0,
{
    match op {
        LedgerOp::CreateDevice { machine_id, name, os } => {
            let mut b = literal("{\"machine_id\":");
            push_json(&mut b, machine_id.as_str());
            b.append(",\"name\":");
            push_json(&mut b, name.as_str());
            b.append(",\"os\":");
            push_json(&mut b, os.as_str());
            b.append(",\"type\":\"desktop\",\"user_id\":");
            push_json(&mut b, auth.user_id.as_str());
            b.append("}");
            Some(b)
        },
        LedgerOp::CreateItem { name, slug, cover_url } => {
            let mut b = literal("{\"cover_url\":");
            match cover_url {
                Some(c) => push_json(&mut b, c.as_str()),
                None => { b.append("null"); },
            }
            b.append(",\"name\":");
            push_json(&mut b, name.as_str());
            b.append(",\"slug\":");
            push_json(&mut b, slug.as_str());
            b.append(",\"user_id\":");
            push_json(&mut b, auth.user_id.as_str());
            b.append("}");
            Some(b)
        },
        LedgerOp::UpsertPath { item_id, device_id, local_path, sync_enabled } => {
            let mut b = literal("{\"device_id\":");
            push_json(&mut b, device_id.as_str());
            b.append(",\"game_id\":");
            push_json(&mut b, item_id.as_str());
            b.append(",\"local_path\":");
            push_json(&mut b, local_path.as_str());
            b.append(",\"sync_enabled\":");
            if *sync_enabled { b.append("true"); } else { b.append("false"); }
            b.append("}");
            Some(b)
        },
        LedgerOp::ClearLatest { .. } => Some(literal("{\"is_latest\":false}")),
        LedgerOp::InsertVersion { version } => {
            let mut b = literal("{\"checksum\":");
            push_json(&mut b, version.checksum.as_str());
            b.append(",\"device_id\":");
            push_json(&mut b, version.device_id.as_str());
            b.append(",\"file_path\":");
            push_json(&mut b, version.file_path.as_str());
            b.append(",\"file_size\":");
            let size = decimal(version.file_size);
            b.append(size.as_str());
            b.append(",\"game_id\":");
            push_json(&mut b, version.item_id.as_str());
            b.append(",\"id\":");
            push_json(&mut b, version.id.as_str());
            b.append(",\"is_latest\":true}");
            Some(b)
        },
        _ => None,
    }
}

fn request_url(auth: &AuthConfig, op: &LedgerOp) -> (r: String)
    ensures
        r@ == url_of(*auth, *op),
{
    let mut u = auth.url.clone();
    match op {
        LedgerOp::FindDevice { machine_id } => {
            u.append("/rest/v1/devices?user_id=eq.");
            u.append(auth.user_id.as_str());
            u.append("&machine_id=eq.");
            u.append(machine_id.as_str());
            u.append("&select=id");
        },
        LedgerOp::CreateDevice { .. } => u.append("/rest/v1/devices"),
        LedgerOp::FindItem { slug } => {
            u.append("/rest/v1/games?user_id=eq.");
            u.append(auth.user_id.as_str());
            u.append("&slug=eq.");
            u.append(slug.as_str());
            u.append("&select=id");
        },
        LedgerOp::CreateItem { .. } => u.append("/rest/v1/games"),
        LedgerOp::UpsertPath { .. } => u.append("/rest/v1/game_paths"),
        LedgerOp::LatestFingerprint { item_id } => {
            u.append("/rest/v1/save_versions?game_id=eq.");
            u.append(item_id.as_str());
            u.append("&is_latest=eq.true&select=checksum");
        },
        LedgerOp::Upload { storage_path, .. } => {
            u.append("/storage/v1/object/saves/");
            u.append(storage_path.as_str());
        },
        LedgerOp::ClearLatest { item_id } => {
            u.append("/rest/v1/save_versions?game_id=eq.");
            u.append(item_id.as_str());
            u.append("&is_latest=eq.true");
        },
        LedgerOp::InsertVersion { .. } => u.append("/rest/v1/save_versions"),
    }
    u
}

fn request_headers(auth: &AuthConfig, op: &LedgerOp) -> (r: Vec<(String, String)>)
    ensures
        r@.map_values(|h: (String, String)| (h.0@, h.1@)) == headers_of(*auth, *op),
{
    let mut h: Vec<(String, String)> = Vec::new();
    h.push(header("apikey", auth.key.clone()));
    let mut bearer = literal("Bearer ");
    bearer.append(auth.token.as_str());
    h.push(header("Authorization", bearer));
    match op {
        LedgerOp::CreateDevice { .. } => {
            h.push(header("Prefer", literal("return=representation,resolution=merge-duplicates")));
            h.push(header("Content-Type", literal("application/json")));
        },
        LedgerOp::CreateItem { .. } => {
            h.push(header("Prefer", literal("return=representation,resolution=merge-duplicates")));
            h.push(header("Content-Type", literal("application/json")));
        },
        LedgerOp::UpsertPath { .. } => {
            h.push(header("Prefer", literal("resolution=merge-duplicates")));
            h.push(header("Content-Type", literal("application/json")));
        },
        LedgerOp::ClearLatest { .. } | LedgerOp::InsertVersion { .. } => {
            h.push(header("Content-Type", literal("application/json")));
        },
        _ => {},
    }
    assert(h@.map_values(|h: (String, String)| (h.0@, h.1@)) =~= headers_of(*auth, *op));
    h
}

/// The HTTP request for a ledger operation. Its method, URL, headers and
/// body are those stated by `method_of`, `url_of`, `headers_of` and
/// `json_body_of`; an upload carries the archive under its file name.
pub fn render_request(auth: &AuthConfig, op: &LedgerOp) -> (req: HttpRequest)
    ensures
        ({
                &&& req.method == method_of(*op)
                &&& req.url@ == url_of(*auth, *op)
                &&& req.headers@.map_values(|h: (String, String)| (h.0@, h.1@)) == headers_of(*auth, *op)
                &&& match json_body_of(*auth, *op) {
                    Some(b) => req.body is Json && req.body->Json_0@ == b,
                    None => match *op {
                        LedgerOp::Upload { file_name, .. } => req.body is Archive && req.body->Archive_0@ == file_name@,
                        _ => req.body is Empty,
                    },
                }
        }),
{
    let method = match op {
        LedgerOp::FindDevice { .. } | LedgerOp::FindItem { .. } | LedgerOp::LatestFingerprint { .. } => Method::Get,
        LedgerOp::ClearLatest { .. } => Method::Patch,
        _ => Method::Post,
    };
    let url = request_url(auth, op);
    let headers = request_headers(auth, op);
    let body = match op {
        LedgerOp::FindDevice { .. } | LedgerOp::FindItem { .. } | LedgerOp::LatestFingerprint { .. } => RequestBody::Empty,
        LedgerOp::Upload { file_name, .. } => RequestBody::Archive(file_name.clone()),
        _ => match json_body(auth, op) {
            Some(b) => RequestBody::Json(b),
            None => RequestBody::Empty,
        },
    };
    HttpRequest { method, url, headers, body }
}

} // verus!
