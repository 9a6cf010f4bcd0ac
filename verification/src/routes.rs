//! Server-side request handling: dispatch over the two API paths, extraction
//! and decoding of the filter key, and the replies each request gets. The
//! replies are computed against the store model; the surrounding process
//! performs the actual transport.

use vstd::prelude::*;
use vstd::string::StringSliceAdditionalSpecFns;
use vstd::utf8::{encode_utf8, valid_utf8};

use crate::item::GetFilesResponse;
use crate::json::{
    content_response_json, encode_content, encode_files_response, files_body,
    lemma_items_json_names,
};
use crate::parse::{parse_save_request, parse_save_spec};
use crate::percent::{pd_bytes, percent_decode};
use crate::store::{list_spec, store_read, store_write, NoteStore};
use crate::text::{
    bytes_to_string, contains_sub, find_first, first_match_at, valid_name_bytes,
};

verus! {

/// An HTTP method, as far as the routes care.
#[derive(Clone, Copy, PartialEq, Eq, Structural, Debug)]
pub enum Method {
    Get,
    Post,
    Other,
}

/// A computed reply: a status code and a body.
pub struct Reply {
    pub status: u16,
    pub body: Vec<u8>,
}

/// Where a request path leads.
pub enum Route {
    /// The listing endpoint.
    Files,
    /// The single-note endpoint; carries the note name's raw bytes.
    File { name: Vec<u8> },
    /// No API endpoint.
    NotFound,
}

/// The bytes of the listing path prefix.
pub open spec fn files_prefix() -> Seq<u8> {
    seq![47u8, 97, 112, 105, 47, 102, 105, 108, 101, 115]
}

/// The bytes of the single-note path prefix.
pub open spec fn file_prefix() -> Seq<u8> {
    seq![47u8, 97, 112, 105, 47, 102, 105, 108, 101, 47]
}

/// The bytes of the `key=` marker in a query string.
pub open spec fn key_marker() -> Seq<u8> {
    seq![107u8, 101, 121, 61]
}

/// `p` is a prefix of `s`.
pub open spec fn has_prefix(s: Seq<u8>, p: Seq<u8>) -> bool {
    s.len() >= p.len() && s.subrange(0, p.len() as int) == p
}

/// Checks a path prefix.
fn starts_with(s: &[u8], p: &[u8]) -> (r: bool)
    ensures
        r == has_prefix(s@, p@),
{
    let n = p.len();
    if n > s.len() {
        return false;
    }
    let mut i: usize = 0;
    while i < n
        invariant
            n == p@.len(),
            n <= s@.len(),
            0 <= i <= n,
            forall|k: int| 0 <= k < i ==> s@[k] == p@[k],
        decreases n - i,
    {
        if s[i] != p[i] {
            assert(s@.subrange(0, p@.len() as int)[i as int] != p@[i as int]);
            return false;
        }
        i += 1;
    }
    assert(s@.subrange(0, p@.len() as int) =~= p@);
    true
}

/// Dispatches a request path, as the API handler does: the listing path wins
/// over the single-note path, and anything else is not found.
pub fn route_path(path: &[u8]) -> (r: Route)
    ensures
        has_prefix(path@, files_prefix()) ==> r is Files,
        !has_prefix(path@, files_prefix()) && has_prefix(path@, file_prefix()) ==> (r matches
            Route::File { name } && name@ == path@.skip(10)),
        !has_prefix(path@, files_prefix()) && !has_prefix(path@, file_prefix()) ==> r is NotFound,
{
    let files: [u8; 10] = [47, 97, 112, 105, 47, 102, 105, 108, 101, 115];
    let file: [u8; 10] = [47, 97, 112, 105, 47, 102, 105, 108, 101, 47];
    proof {
        assert(files@ =~= files_prefix());
        assert(file@ =~= file_prefix());
    }
    if starts_with(path, files.as_slice()) {
        return Route::Files;
    }
    if starts_with(path, file.as_slice()) {
        let n = path.len();
        let mut name: Vec<u8> = Vec::new();
        let mut i: usize = 10;
        while i < n
            invariant
                n == path@.len(),
                10 <= i <= n,
                name@ =~= path@.subrange(10, i as int),
            decreases n - i,
        {
            name.push(path[i]);
            proof {
                assert(path@.subrange(10, i + 1) =~= path@.subrange(10, i as int).push(
                    path@[i as int],
                ));
            }
            i += 1;
        }
        proof {
            assert(path@.subrange(10, n as int) =~= path@.skip(10));
        }
        return Route::File { name };
    }
    Route::NotFound
}

/// Extracts and decodes the filter key of a listing request's query string:
/// everything after the first `key=` marker, percent-decoded. A query
/// without the marker means no filter; a malformed escape yields `None`.
pub fn extract_query_key(query: &[u8]) -> (r: Option<Vec<u8>>)
    ensures
        match r {
            Some(k) => (exists|i: int|
                #[trigger] first_match_at(query@, key_marker(), i) && pd_bytes(
                    query@.skip(i + 4),
                ) == Some(k@)) || (!contains_sub(query@, key_marker()) && k@.len() == 0),
            None => exists|i: int|
                #[trigger] first_match_at(query@, key_marker(), i) && pd_bytes(query@.skip(i + 4))
                    is None,
        },
{
    let marker: [u8; 4] = [107, 101, 121, 61];
    proof {
        assert(marker@ =~= key_marker());
    }
    match find_first(query, marker.as_slice()) {
        Some(i) => {
            let n = query.len();
            let mut raw: Vec<u8> = Vec::new();
            let mut j: usize = i + 4;
            while j < n
                invariant
                    n == query@.len(),
                    i + 4 <= j <= n,
                    raw@ =~= query@.subrange(i + 4, j as int),
                decreases n - j,
            {
                raw.push(query[j]);
                proof {
                    assert(query@.subrange(i + 4, j + 1) =~= query@.subrange(i + 4, j as int).push(
                        query@[j as int],
                    ));
                }
                j += 1;
            }
            proof {
                assert(query@.subrange(i + 4, n as int) =~= query@.skip(i + 4));
            }
            percent_decode(raw.as_slice())
        },
        None => Some(Vec::new()),
    }
}

/// Answers a listing request: only `GET` is served; the reply body lists the
/// notes whose name contains the (already decoded) key.
pub fn handle_files(store: &NoteStore, method: &Method, key: &[u8]) -> (r: Reply)
    ensures
        *method is Get ==> r.status == 200 && r.body@ == files_body(list_spec(store@, key@)),
        !(*method is Get) ==> r.status == 404 && r.body@.len() == 0,
{
    if !matches!(method, Method::Get) {
        return Reply { status: 404, body: Vec::new() };
    }
    let items = store.list(key);
    proof {
        lemma_items_json_names(items@, list_spec(store@, key@));
    }
    let resp = GetFilesResponse { files: items };
    let body = encode_files_response(&resp);
    Reply { status: 200, body }
}

/// The raw bytes of an optional request body.
pub open spec fn body_bytes(body: Option<&[u8]>) -> Option<Seq<u8>> {
    match body {
        Some(b) => Some(b@),
        None => None,
    }
}

/// What a save-request body decodes to, if it is there and parses.
pub open spec fn post_content(body: Option<Seq<u8>>) -> Option<Seq<u8>> {
    match body {
        Some(b) => parse_save_spec(b),
        None => None,
    }
}

/// Answers a single-note request.
///
/// - `GET` reads the note (creating it empty when absent) and replies with
///   its content; an invalid or non-UTF-8 name gets 400.
/// - `POST` parses the body as a save request and overwrites the note with
///   its content, replying with an empty body; a missing or malformed body,
///   or an invalid name, gets 400.
/// - Any other method gets 404. The store is only changed where stated.
pub fn handle_file(
    store: &mut NoteStore,
    method: &Method,
    name_bytes: &[u8],
    body: Option<&[u8]>,
) -> (r: Reply)
    requires
        old(store).wf(),
    ensures
        final(store).wf(),
        *method is Get ==> {
            &&& (valid_utf8(name_bytes@) && valid_name_bytes(name_bytes@)) ==> {
                &&& r.status == 200
                &&& exists|name: Seq<char>|
                    encode_utf8(name) == name_bytes@ && r.body@ == content_response_json(
                        #[trigger] store_read(old(store)@, name).1,
                    ) && final(store)@ == store_read(old(store)@, name).0
            }
            &&& !(valid_utf8(name_bytes@) && valid_name_bytes(name_bytes@)) ==> r.status == 400
                && final(store)@ == old(store)@
        },
        *method is Post ==> {
            &&& post_content(body_bytes(body)) matches Some(c) ==> {
                &&& (valid_utf8(name_bytes@) && valid_name_bytes(name_bytes@) && valid_utf8(c))
                    ==> {
                    &&& r.status == 200
                    &&& r.body@.len() == 0
                    &&& exists|name: Seq<char>, content: Seq<char>|
                        #![trigger encode_utf8(name), encode_utf8(content)]
                        encode_utf8(name) == name_bytes@ && encode_utf8(content) == c
                            && final(store)@ == store_write(old(store)@, name, content)
                }
                &&& !(valid_utf8(name_bytes@) && valid_name_bytes(name_bytes@) && valid_utf8(c))
                    ==> r.status == 400 && final(store)@ == old(store)@
            }
            &&& post_content(body_bytes(body)) is None ==> r.status == 400 && final(store)@
                == old(store)@
        },
        *method is Other ==> r.status == 404 && final(store)@ == old(store)@,
{
    match method {
        Method::Get => {
            let name = match bytes_to_string(vstd::slice::slice_to_vec(name_bytes)) {
                Some(s) => s,
                None => {
                    return Reply { status: 400, body: Vec::new() };
                },
            };
            match store.read(&name) {
                Ok(content) => {
                    let body = encode_content(&content);
                    Reply { status: 200, body }
                },
                Err(_) => Reply { status: 400, body: Vec::new() },
            }
        },
        Method::Post => {
            let name = match bytes_to_string(vstd::slice::slice_to_vec(name_bytes)) {
                Some(s) => s,
                None => {
                    return Reply { status: 400, body: Vec::new() };
                },
            };
            let b = match body {
                Some(b) => b,
                None => {
                    return Reply { status: 400, body: Vec::new() };
                },
            };
            let req = match parse_save_request(b) {
                Some(req) => req,
                None => {
                    return Reply { status: 400, body: Vec::new() };
                },
            };
            match store.write(&name, &req.content) {
                Ok(_) => {
                    proof {
                        vstd::utf8::encode_utf8_valid_utf8(name@);
                        vstd::utf8::encode_utf8_valid_utf8(req.content@);
                    }
                    Reply { status: 200, body: Vec::new() }
                },
                Err(_) => Reply { status: 400, body: Vec::new() },
            }
        },
        Method::Other => Reply { status: 404, body: Vec::new() },
    }
}

/// Builds the request path for a single note, as the editor's fetch and
/// save requests address it: the single-note prefix followed by the name's
/// raw bytes.
pub fn build_file_path(name: &str) -> (r: Vec<u8>)
    ensures
        r@ =~= file_prefix() + name.spec_bytes(),
{
    let file: [u8; 10] = [47, 97, 112, 105, 47, 102, 105, 108, 101, 47];
    proof {
        assert(file@ =~= file_prefix());
    }
    let mut out: Vec<u8> = Vec::new();
    out.extend_from_slice(file.as_slice());
    out.extend_from_slice(name.as_bytes());
    out
}

/// Routing inverts the path builder: the path built for a name always leads
/// to the single-note route carrying that name.
pub proof fn lemma_route_of_file_path(p: Seq<u8>, nb: Seq<u8>)
    requires
        p == file_prefix() + nb,
    ensures
        !has_prefix(p, files_prefix()),
        has_prefix(p, file_prefix()),
        p.skip(10) == nb,
{
    assert(p[9] == 47);
    if has_prefix(p, files_prefix()) {
        assert(p.subrange(0, 10)[9] == files_prefix()[9]);
        assert(p[9] == 115);
    }
    assert(p.subrange(0, 10) =~= file_prefix());
    assert(p.skip(10) =~= nb);
}

/// The reply every unknown path gets.
pub fn build_404_response() -> (r: Reply)
    ensures
        r.status == 404,
        r.body@.len() == 0,
{
    Reply { status: 404, body: Vec::new() }
}

} // verus!
