//! Request routing and static-file paths of the dashboard server.
use vstd::prelude::*;
use vstd::string::StringSliceAdditionalSpecFns;
use std::path::Path;
use crate::text::{split_text, split_str, piece_bytes, find_byte, find_byte_in, cut_around, same_text, starts_with_ascii, strip_leading, strip_leading_str, lemma_strip_leading_head};
use crate::urlcode::{urldecode, decoded_text, percent_cuts_on_boundaries};

verus! {

broadcast use {vstd::utf8::encode_utf8_decode_utf8, vstd::utf8::encode_utf8_valid_utf8};

/// The HTTP method of a request, as far as routing cares.
#[derive(Clone, Copy, Debug, PartialEq, Eq, Structural)]
pub enum HttpMethod {
    Get,
    Post,
    Other,
}

/// The API endpoint that a request is for.
#[derive(Clone, Copy, Debug, PartialEq, Eq, Structural)]
pub enum Endpoint {
    Board,
    Simulate,
    Edge,
    Tournament,
    LiveAdjust,
    LiveBoard,
    Prices,
    Chat,
    Unknown,
}

/// The endpoint served for a method and an API path.
pub open spec fn endpoint_for(method: HttpMethod, path: Seq<char>) -> Endpoint {
    match method {
        HttpMethod::Get => if path == "/api/board"@ {
            Endpoint::Board
        } else if path == "/api/edge"@ {
            Endpoint::Edge
        } else if path == "/api/tournament"@ {
            Endpoint::Tournament
        } else if path == "/api/live-adjust"@ {
            Endpoint::LiveAdjust
        } else if path == "/api/live-board"@ {
            Endpoint::LiveBoard
        } else if path == "/api/prices"@ {
            Endpoint::Prices
        } else {
            Endpoint::Unknown
        },
        HttpMethod::Post => if path == "/api/simulate"@ {
            Endpoint::Simulate
        } else if path == "/api/chat"@ {
            Endpoint::Chat
        } else {
            Endpoint::Unknown
        },
        HttpMethod::Other => Endpoint::Unknown,
    }
}

/// Which endpoint serves `method` on `path`; `Unknown` for any other pair.
pub fn route(method: HttpMethod, path: &str) -> (r: Endpoint)
    ensures
        r == endpoint_for(method, path@),
{
    match method {
        HttpMethod::Get => if same_text(path, "/api/board") {
            Endpoint::Board
        } else if same_text(path, "/api/edge") {
            Endpoint::Edge
        } else if same_text(path, "/api/tournament") {
            Endpoint::Tournament
        } else if same_text(path, "/api/live-adjust") {
            Endpoint::LiveAdjust
        } else if same_text(path, "/api/live-board") {
            Endpoint::LiveBoard
        } else if same_text(path, "/api/prices") {
            Endpoint::Prices
        } else {
            Endpoint::Unknown
        },
        HttpMethod::Post => if same_text(path, "/api/simulate") {
            Endpoint::Simulate
        } else if same_text(path, "/api/chat") {
            Endpoint::Chat
        } else {
            Endpoint::Unknown
        },
        HttpMethod::Other => Endpoint::Unknown,
    }
}

/// The bytes of a URL before its first `?`.
pub open spec fn path_part(url: Seq<u8>) -> Seq<u8> {
    match find_byte(url, 0x3f) {
        Some(i) => url.take(i),
        None => url,
    }
}

/// The path of a request URL: everything before the first `?`.
pub fn request_path(url: &str) -> (r: &str)
    ensures
        r.spec_bytes() == path_part(url.spec_bytes()),
{
    match find_byte_in(url.as_bytes(), 0x3f) {
        Some(i) => {
            proof {
                crate::text::lemma_find_byte(url.spec_bytes(), 0x3f);
            }
            let (path, _query) = cut_around(url, i);
            path
        },
        None => url,
    }
}

/// Whether a request path is for the JSON API (it begins with `/api/`).
pub fn is_api_path(path: &str) -> (r: bool)
    ensures
        r == (path@.len() >= 5 && path@.take(5) == "/api/"@),
{
    proof {
        reveal_strlit("/api/");
    }
    starts_with_ascii(path, "/api/")
}

/// The file under the UI directory that a non-API request names: the
/// decoded path without its leading slashes, and the dashboard page for `/`.
pub open spec fn static_rel(url: Seq<u8>) -> Seq<char> {
    let rel = decoded_text(path_part(url));
    if rel == "/"@ {
        "goal digger2.html"@
    } else {
        strip_leading(rel, '/')
    }
}

/// The file a non-API request URL names, relative to the UI directory.
pub fn static_rel_path(url: &str) -> (r: String)
    requires
        percent_cuts_on_boundaries(path_part(url.spec_bytes())),
    ensures
        r@ == static_rel(url.spec_bytes()),
        r@.len() > 0 ==> r@[0] != '/',
{
    proof {
        lemma_strip_leading_head(decoded_text(path_part(url.spec_bytes())), '/');
        reveal_strlit("goal digger2.html");
    }
    let raw = request_path(url);
    let rel = urldecode(raw);
    if same_text(rel.as_str(), "/") {
        "goal digger2.html".to_owned()
    } else {
        strip_leading_str(rel.as_str(), 0x2f).to_owned()
    }
}

/// The MIME type sent for a file extension.
pub open spec fn mime_for(ext: Option<Seq<char>>) -> Seq<char> {
    match ext {
        Some(e) => if e == "html"@ {
            "text/html; charset=utf-8"@
        } else if e == "css"@ {
            "text/css; charset=utf-8"@
        } else if e == "js"@ {
            "text/javascript; charset=utf-8"@
        } else if e == "jsx"@ {
            "text/babel; charset=utf-8"@
        } else if e == "png"@ {
            "image/png"@
        } else if e == "json"@ {
            "application/json"@
        } else {
            "application/octet-stream"@
        },
        None => "application/octet-stream"@,
    }
}

/// What `Path::extension` gives for a path, as text.
pub uninterp spec fn path_extension(path: Seq<char>) -> Option<Seq<char>>;

/// Calls `Path::extension` (then `OsStr::to_str`). Trusted: only that the
/// result is the name `path_extension` of the path.
#[verifier::external_body]
fn extension_of(path: &str) -> (r: Option<&str>)
    ensures
        match r {
            Some(e) => path_extension(path@) == Some(e@),
            None => path_extension(path@) == None::<Seq<char>>,
        },
{
    match Path::new(path).extension() {
        Some(e) => e.to_str(),
        None => None,
    }
}

/// The `Content-Type` for a file, chosen by its extension.
pub fn content_type(path: &str) -> (r: &'static str)
    ensures
        r@ == mime_for(path_extension(path@)),
{
    match extension_of(path) {
        Some(e) => if same_text(e, "html") {
            "text/html; charset=utf-8"
        } else if same_text(e, "css") {
            "text/css; charset=utf-8"
        } else if same_text(e, "js") {
            "text/javascript; charset=utf-8"
        } else if same_text(e, "jsx") {
            "text/babel; charset=utf-8"
        } else if same_text(e, "png") {
            "image/png"
        } else if same_text(e, "json") {
            "application/json"
        } else {
            "application/octet-stream"
        },
        None => "application/octet-stream",
    }
}

/// What `Path::parent` gives for a path, as text.
pub uninterp spec fn path_parent(path: Seq<char>) -> Option<Seq<char>>;

/// What `Path::join` gives for a base path and a path to append, as text.
pub uninterp spec fn path_join(base: Seq<char>, rest: Seq<char>) -> Seq<char>;

/// Whether `Path::starts_with` holds of a path and a base (component-wise).
pub uninterp spec fn path_starts_with(path: Seq<char>, base: Seq<char>) -> bool;

/// Calls `Path::parent`. Trusted: only that the result is the name
/// `path_parent` of the path.
#[verifier::external_body]
fn parent_of(path: &str) -> (r: Option<String>)
    ensures
        match r {
            Some(p) => path_parent(path@) == Some(p@),
            None => path_parent(path@) == None::<Seq<char>>,
        },
{
    match Path::new(path).parent() {
        Some(p) => Some(p.to_string_lossy().into_owned()),
        None => None,
    }
}

/// Calls `Path::join`. Trusted: only that the result is the name
/// `path_join` of the two paths.
#[verifier::external_body]
fn join_path(base: &str, rest: &str) -> (r: String)
    ensures
        r@ == path_join(base@, rest@),
{
    Path::new(base).join(rest).to_string_lossy().into_owned()
}

/// Calls `Path::starts_with`. Trusted: only that the result is the name
/// `path_starts_with` of the two paths.
#[verifier::external_body]
fn path_has_prefix(path: &str, base: &str) -> (r: bool)
    ensures
        r == path_starts_with(path@, base@),
{
    Path::new(path).starts_with(base)
}

/// The UI directory, a sibling `ui` of the server's package directory.
pub fn ui_dir(manifest_dir: &str) -> (r: String)
    requires
        path_parent(manifest_dir@) is Some,
    ensures
        r@ == path_join(path_parent(manifest_dir@).unwrap(), "ui"@),
{
    match parent_of(manifest_dir) {
        Some(parent) => join_path(parent.as_str(), "ui"),
        None => String::new(),
    }
}

/// The UI directory, or `None` when the package directory has no parent.
pub fn ui_dir_checked(manifest_dir: &str) -> (r: Option<String>)
    ensures
        match path_parent(manifest_dir@) {
            Some(parent) => r is Some && r->Some_0@ == path_join(parent, "ui"@),
            None => r is None,
        },
{
    match parent_of(manifest_dir) {
        Some(_parent) => Some(ui_dir(manifest_dir)),
        None => None,
    }
}

/// Whether walking the pieces of a path (split at `/`) from `depth`
/// directories below the base climbs above the base: `..` goes up one,
/// `.` and empty pieces stay, any other piece goes down one.
pub open spec fn climbs_above(pieces: Seq<Seq<char>>, depth: int) -> bool
    decreases pieces.len(),
{
    if pieces.len() == 0 {
        false
    } else if pieces[0] == ".."@ {
        depth <= 0 || climbs_above(pieces.drop_first(), depth - 1)
    } else if pieces[0] == "."@ || pieces[0].len() == 0 {
        climbs_above(pieces.drop_first(), depth)
    } else {
        climbs_above(pieces.drop_first(), depth + 1)
    }
}

/// Whether a relative path, with `.` and `..` resolved piece by piece,
/// leaves the directory it is relative to.
pub open spec fn leaves_base(rel: Seq<char>) -> bool {
    climbs_above(split_text(rel, 0x2f), 0)
}

/// Whether a relative path leaves the directory it is relative to.
pub fn climbs_out(rel: &str) -> (r: bool)
    ensures
        r == leaves_base(rel@),
{
    let pieces = split_str(rel, 0x2f);
    let ghost texts = split_text(rel@, 0x2f);
    assert(texts.len() == pieces@.len());
    let mut depth: usize = 0;
    let mut i: usize = 0;
    assert(texts.skip(0) =~= texts);
    while i < pieces.len()
        invariant
            0 <= i <= pieces@.len(),
            depth <= i,
            texts == split_text(rel@, 0x2f),
            texts.len() == pieces@.len(),
            piece_bytes(pieces@) == crate::text::split_bytes(rel.spec_bytes(), 0x2f),
            leaves_base(rel@) == climbs_above(texts.skip(i as int), depth as int),
        decreases pieces.len() - i,
    {
        let piece: &str = pieces[i];
        assert(piece_bytes(pieces@)[i as int] == piece.spec_bytes());
        assert(texts[i as int] == piece@);
        let ghost rest = texts.skip(i as int);
        assert(rest[0] == texts[i as int]);
        assert(rest.drop_first() =~= texts.skip(i + 1));
        if same_text(piece, "..") {
            if depth == 0 {
                return true;
            }
            depth = depth - 1;
        } else if same_text(piece, ".") || piece.is_empty() {
        } else {
            depth = depth + 1;
        }
        i = i + 1;
    }
    assert(texts.skip(i as int) =~= Seq::<Seq<char>>::empty());
    false
}

/// The file that a non-API request URL names inside the UI directory
/// `ui`: `None` when the decoded path, with `.` and `..` resolved, leaves
/// that directory, or when the joined path does not start with `ui`.
pub fn static_file_path(url: &str, ui: &str) -> (r: Option<String>)
    requires
        percent_cuts_on_boundaries(path_part(url.spec_bytes())),
    ensures
        ({
            let rel = static_rel(url.spec_bytes());
            let path = path_join(ui@, rel);
            if !leaves_base(rel) && path_starts_with(path, ui@) {
                r is Some && r->Some_0@ == path
            } else {
                r is None
            }
        }),
{
    let rel = static_rel_path(url);
    if climbs_out(rel.as_str()) {
        return None;
    }
    let path = join_path(ui, rel.as_str());
    if path_has_prefix(path.as_str(), ui) {
        Some(path)
    } else {
        None
    }
}

} // verus!
