//! The request side of a connection: the request head, its routing, the
//! WebSocket upgrade handshake and the bytes of each response.
use vstd::prelude::*;
use vstd::string::StringSliceAdditionalSpecFns;
use vstd::utf8::{decode_utf8, valid_utf8};

use sha1::Digest;

use crate::text::{
    append_bytes, append_decimal, chars_from, contains, contains_chars, decimal, equal_chars, first_match,
    lemma_first_match, lower_of, lowercase, starts_with_chars, utf8_chars,
};

verus! {

/// Size beyond which a request head that is still incomplete is refused.
pub const MAX_REQUEST_HEAD: usize = 16384;

/// A header of a request: its name and its raw value.
pub struct Header {
    pub name: Vec<char>,
    pub value: Vec<u8>,
}

pub struct HeaderView {
    pub name: Seq<char>,
    pub value: Seq<u8>,
}

impl View for Header {
    type V = HeaderView;

    open spec fn view(&self) -> HeaderView {
        HeaderView { name: self.name@, value: self.value@ }
    }
}

/// What the bytes received so far make of a request head.
pub enum RequestHead {
    Complete { path: Option<Vec<char>>, headers: Vec<Header> },
    Partial,
    Invalid,
}

pub enum RequestHeadView {
    Complete { path: Option<Seq<char>>, headers: Seq<HeaderView> },
    Partial,
    Invalid,
}

pub open spec fn headers_view(hs: Seq<Header>) -> Seq<HeaderView> {
    hs.map_values(|h: Header| h@)
}

impl View for RequestHead {
    type V = RequestHeadView;

    open spec fn view(&self) -> RequestHeadView {
        match self {
            RequestHead::Complete { path, headers } => RequestHeadView::Complete {
                path: match path {
                    Some(p) => Some(p@),
                    None => None,
                },
                headers: headers_view(headers@),
            },
            RequestHead::Partial => RequestHeadView::Partial,
            RequestHead::Invalid => RequestHeadView::Invalid,
        }
    }
}

/// How httparse reads a request head from these bytes.
pub uninterp spec fn request_head_of(buf: Seq<u8>) -> RequestHeadView;

/// Relies on `httparse::Request::parse`, with room for 32 headers: the head
/// read from the bytes, whether it is still partial, or that it is invalid.
#[verifier::external_body]
fn parse_request_head(buf: &Vec<u8>) -> (r: RequestHead)
    ensures
        r@ == request_head_of(buf@),
{
    let mut headers = [httparse::EMPTY_HEADER; 32];
    let mut request = httparse::Request::new(&mut headers);
    match request.parse(buf) {
        Ok(httparse::Status::Complete(_)) => RequestHead::Complete {
            path: request.path.map(|p| p.chars().collect()),
            headers: request.headers.iter().map(|h| Header { name: h.name.chars().collect(), value: h.value.to_vec() }).collect(),
        },
        Ok(httparse::Status::Partial) => RequestHead::Partial,
        Err(_) => RequestHead::Invalid,
    }
}

/// SHA-1 digest of the bytes.
pub uninterp spec fn sha1_of(b: Seq<u8>) -> Seq<u8>;

/// Relies on `sha1::Sha1`: the 20-byte digest of the bytes.
#[verifier::external_body]
fn sha1_digest(b: &Vec<u8>) -> (r: Vec<u8>)
    ensures
        r@ == sha1_of(b@),
{
    let mut hasher = sha1::Sha1::new();
    hasher.update(b);
    hasher.finalize().to_vec()
}

/// Standard base64 text of the bytes, as ASCII bytes.
pub uninterp spec fn base64_of(b: Seq<u8>) -> Seq<u8>;

/// Relies on `base64::encode`: the standard, padded base64 text of the bytes.
#[verifier::external_body]
fn base64_encode(b: &Vec<u8>) -> (r: Vec<u8>)
    ensures
        r@ == base64_of(b@),
{
    base64::encode(b).into_bytes()
}

/// The bytes of a text literal.
pub open spec fn lit(s: &str) -> Seq<u8> {
    s.spec_bytes()
}

/// GUID that the WebSocket protocol appends to the client's key.
pub const WEBSOCKET_GUID: &'static str = "258EAFA5-E914-47DA-95CA-C5AB0DC85B11";

/// The accept token answered to a client's handshake key.
pub open spec fn accept_token(key: Seq<u8>) -> Seq<u8> {
    base64_of(sha1_of(key + lit(WEBSOCKET_GUID)))
}

/// Computes the accept token for a client's handshake key.
pub fn websocket_accept(key: &Vec<u8>) -> (r: Vec<u8>)
    ensures
        r@ == accept_token(key@),
{
    let mut data: Vec<u8> = Vec::new();
    append_bytes(&mut data, key.as_slice());
    append_bytes(&mut data, WEBSOCKET_GUID.as_bytes());
    assert(data@ =~= key@ + lit(WEBSOCKET_GUID));
    let digest = sha1_digest(&data);
    base64_encode(&digest)
}

/// A header whose lower-cased name is `n`.
pub open spec fn named(n: Seq<char>) -> spec_fn(HeaderView) -> bool {
    |h: HeaderView| lower_of(h.name) == n
}

/// Position of the first header named `n`, whatever its case, or -1.
pub open spec fn header_index(hs: Seq<HeaderView>, n: Seq<char>) -> int {
    first_match(hs, named(n))
}

/// Lower-cased text of the first header named `n`; `None` where there is
/// none or its value is not UTF-8.
pub open spec fn header_text(hs: Seq<HeaderView>, n: Seq<char>) -> Option<Seq<char>> {
    let i = header_index(hs, n);
    if i < 0 || !valid_utf8(hs[i].value) {
        None
    } else {
        Some(lower_of(decode_utf8(hs[i].value)))
    }
}

pub open spec fn name_upgrade() -> Seq<char> {
    seq!['u', 'p', 'g', 'r', 'a', 'd', 'e']
}

pub open spec fn name_connection() -> Seq<char> {
    seq!['c', 'o', 'n', 'n', 'e', 'c', 't', 'i', 'o', 'n']
}

pub open spec fn name_version() -> Seq<char> {
    seq!['s', 'e', 'c', '-', 'w', 'e', 'b', 's', 'o', 'c', 'k', 'e', 't', '-', 'v', 'e', 'r', 's', 'i', 'o', 'n']
}

pub open spec fn name_key() -> Seq<char> {
    seq!['s', 'e', 'c', '-', 'w', 'e', 'b', 's', 'o', 'c', 'k', 'e', 't', '-', 'k', 'e', 'y']
}

pub open spec fn token_websocket() -> Seq<char> {
    seq!['w', 'e', 'b', 's', 'o', 'c', 'k', 'e', 't']
}

pub open spec fn token_version() -> Seq<char> {
    seq!['1', '3']
}

/// The first header named `n` mentions `token`.
pub open spec fn mentions(hs: Seq<HeaderView>, n: Seq<char>, token: Seq<char>) -> bool {
    header_text(hs, n) matches Some(v) && contains(v, token)
}

/// The headers ask for a WebSocket upgrade of the expected version.
pub open spec fn upgrade_requested(hs: Seq<HeaderView>) -> bool {
    &&& mentions(hs, name_upgrade(), token_websocket())
    &&& mentions(hs, name_connection(), name_upgrade())
    &&& header_text(hs, name_version()) == Some(token_version())
}

/// The client's handshake key, where the headers make a valid upgrade
/// request.
pub open spec fn handshake_key(hs: Seq<HeaderView>) -> Option<Seq<u8>> {
    let i = header_index(hs, name_key());
    if upgrade_requested(hs) && i >= 0 {
        Some(hs[i].value)
    } else {
        None
    }
}

fn find_header(headers: &Vec<Header>, n: &Vec<char>) -> (r: Option<usize>)
    ensures
        match r {
            Some(i) => header_index(headers_view(headers@), n@) == i && i < headers@.len(),
            None => header_index(headers_view(headers@), n@) == -1,
        },
{
    let ghost hs = headers_view(headers@);
    let mut i: usize = 0;
    while i < headers.len()
        invariant
            i <= headers@.len(),
            hs == headers_view(headers@),
            forall|j: int| 0 <= j < i ==> !named(n@)(#[trigger] hs[j]),
        decreases headers@.len() - i,
    {
        let lower = lowercase(&headers[i].name);
        if equal_chars(&lower, n) {
            proof {
                lemma_first_match(hs, named(n@), i as int);
            }
            return Some(i);
        }
        i = i + 1;
    }
    proof {
        lemma_first_match(hs, named(n@), i as int);
    }
    None
}

fn find_header_text(headers: &Vec<Header>, n: &Vec<char>) -> (r: Option<Vec<char>>)
    ensures
        match r {
            Some(t) => header_text(headers_view(headers@), n@) == Some(t@),
            None => header_text(headers_view(headers@), n@) == None::<Seq<char>>,
        },
{
    match find_header(headers, n) {
        None => None,
        Some(i) => match utf8_chars(&headers[i].value) {
            None => None,
            Some(text) => Some(lowercase(&text)),
        },
    }
}

fn header_mentions(headers: &Vec<Header>, n: &Vec<char>, token: &Vec<char>) -> (r: bool)
    ensures
        r == mentions(headers_view(headers@), n@, token@),
{
    match find_header_text(headers, n) {
        None => false,
        Some(t) => contains_chars(&t, token),
    }
}

/// The client's handshake key, where the headers make a valid upgrade
/// request: each of the upgrade and connection headers mentions its token,
/// whatever the case, and the version header is the expected one.
pub fn find_handshake_key(headers: &Vec<Header>) -> (r: Option<Vec<u8>>)
    ensures
        match r {
            Some(k) => handshake_key(headers_view(headers@)) == Some(k@),
            None => handshake_key(headers_view(headers@)) == None::<Seq<u8>>,
        },
{
    let upgrade = vec!['u', 'p', 'g', 'r', 'a', 'd', 'e'];
    let connection = vec!['c', 'o', 'n', 'n', 'e', 'c', 't', 'i', 'o', 'n'];
    let version = vec!['s', 'e', 'c', '-', 'w', 'e', 'b', 's', 'o', 'c', 'k', 'e', 't', '-', 'v', 'e', 'r', 's', 'i', 'o', 'n'];
    let key = vec!['s', 'e', 'c', '-', 'w', 'e', 'b', 's', 'o', 'c', 'k', 'e', 't', '-', 'k', 'e', 'y'];
    let websocket = vec!['w', 'e', 'b', 's', 'o', 'c', 'k', 'e', 't'];
    let thirteen = vec!['1', '3'];
    assert(upgrade@ =~= name_upgrade());
    assert(connection@ =~= name_connection());
    assert(version@ =~= name_version());
    assert(key@ =~= name_key());
    assert(websocket@ =~= token_websocket());
    assert(thirteen@ =~= token_version());
    if !header_mentions(headers, &upgrade, &websocket) {
        return None;
    }
    if !header_mentions(headers, &connection, &upgrade) {
        return None;
    }
    match find_header_text(headers, &version) {
        None => return None,
        Some(v) => {
            if !equal_chars(&v, &thirteen) {
                return None;
            }
        },
    }
    match find_header(headers, &key) {
        None => None,
        Some(i) => {
            let mut value: Vec<u8> = Vec::new();
            append_bytes(&mut value, headers[i].value.as_slice());
            assert(value@ =~= headers@[i as int].value@);
            Some(value)
        },
    }
}


/// The bytes of a response with a body.
pub open spec fn response_spec(code: u32, status: Seq<u8>, content_type: Seq<u8>, data: Seq<u8>) -> Seq<u8> {
    lit("HTTP/1.1 ") + decimal(code as nat) + lit(" ") + status + lit("\r\nContent-Type: ") + content_type
        + lit("\r\nContent-Length: ") + decimal(data.len()) + lit("\r\n\r\n") + data
}

/// The bytes of a response whose body is UTF-8 text.
pub open spec fn text_response_spec(code: u32, status: Seq<u8>, content_type: Seq<u8>, text: Seq<u8>) -> Seq<u8> {
    response_spec(code, status, content_type + lit("; charset=utf-8"), text)
}

/// The bytes of an error response: a small HTML page that names the error.
pub open spec fn error_response_spec(code: u32, status: Seq<u8>) -> Seq<u8> {
    text_response_spec(code, status, lit("text/html"), lit("<h1>") + decimal(code as nat) + lit(" ") + status + lit("</h1>"))
}

/// The bytes of the response that accepts a WebSocket upgrade.
pub open spec fn upgrade_response_spec(accept: Seq<u8>) -> Seq<u8> {
    lit("HTTP/1.1 101 Switching Protocols\r\nSec-WebSocket-Accept: ") + accept
        + lit("\r\nConnection: Upgrade\r\nUpgrade: websocket\r\n\r\n")
}

/// Builds a response with a body.
pub fn write_response(code: u32, status: &str, content_type: &[u8], data: &[u8]) -> (r: Vec<u8>)
    ensures
        r@ == response_spec(code, lit(status), content_type@, data@),
{
    let mut out: Vec<u8> = Vec::new();
    append_bytes(&mut out, "HTTP/1.1 ".as_bytes());
    append_decimal(&mut out, code as u64);
    append_bytes(&mut out, " ".as_bytes());
    append_bytes(&mut out, status.as_bytes());
    append_bytes(&mut out, "\r\nContent-Type: ".as_bytes());
    append_bytes(&mut out, content_type);
    append_bytes(&mut out, "\r\nContent-Length: ".as_bytes());
    append_decimal(&mut out, data.len() as u64);
    append_bytes(&mut out, "\r\n\r\n".as_bytes());
    append_bytes(&mut out, data);
    out
}

/// Builds a response whose body is UTF-8 text.
pub fn write_text_response(code: u32, status: &str, content_type: &str, text: &[u8]) -> (r: Vec<u8>)
    ensures
        r@ == text_response_spec(code, lit(status), lit(content_type), text@),
{
    let mut ct: Vec<u8> = Vec::new();
    append_bytes(&mut ct, content_type.as_bytes());
    append_bytes(&mut ct, "; charset=utf-8".as_bytes());
    write_response(code, status, ct.as_slice(), text)
}

/// Builds an error response.
pub fn write_error(code: u32, status: &str) -> (r: Vec<u8>)
    ensures
        r@ == error_response_spec(code, lit(status)),
{
    let mut body: Vec<u8> = Vec::new();
    append_bytes(&mut body, "<h1>".as_bytes());
    append_decimal(&mut body, code as u64);
    append_bytes(&mut body, " ".as_bytes());
    append_bytes(&mut body, status.as_bytes());
    append_bytes(&mut body, "</h1>".as_bytes());
    write_text_response(code, status, "text/html", body.as_slice())
}

/// Builds the response that accepts a WebSocket upgrade for this key.
pub fn write_upgrade_response(key: &Vec<u8>) -> (r: Vec<u8>)
    ensures
        r@ == upgrade_response_spec(accept_token(key@)),
{
    let accept = websocket_accept(key);
    let mut out: Vec<u8> = Vec::new();
    append_bytes(&mut out, "HTTP/1.1 101 Switching Protocols\r\nSec-WebSocket-Accept: ".as_bytes());
    append_bytes(&mut out, accept.as_slice());
    append_bytes(&mut out, "\r\nConnection: Upgrade\r\nUpgrade: websocket\r\n\r\n".as_bytes());
    out
}

/// A named image of the site.
pub struct Image {
    pub name: Vec<char>,
    pub png: Vec<u8>,
}

pub struct ImageView {
    pub name: Seq<char>,
    pub png: Seq<u8>,
}

impl View for Image {
    type V = ImageView;

    open spec fn view(&self) -> ImageView {
        ImageView { name: self.name@, png: self.png@ }
    }
}

/// What the server hands out: the document, its script and the images.
pub struct Site {
    pub index_html: Vec<u8>,
    pub index_js: Vec<u8>,
    pub images: Vec<Image>,
}

pub struct SiteView {
    pub index_html: Seq<u8>,
    pub index_js: Seq<u8>,
    pub images: Seq<ImageView>,
}

impl View for Site {
    type V = SiteView;

    open spec fn view(&self) -> SiteView {
        SiteView { index_html: self.index_html@, index_js: self.index_js@, images: self.images@.map_values(|i: Image| i@) }
    }
}

/// An image named `n`.
pub open spec fn image_named(n: Seq<char>) -> spec_fn(ImageView) -> bool {
    |i: ImageView| i.name == n
}

/// The answer to a request: its status code, whether the connection goes
/// on as a WebSocket, and the bytes to send.
pub struct Response {
    pub code: u32,
    pub upgrade: bool,
    pub bytes: Vec<u8>,
}

pub open spec fn path_images() -> Seq<char> {
    seq!['/', 'i', 'm', 'g', '/']
}

pub open spec fn path_websocket() -> Seq<char> {
    seq!['/', 'w', 'e', 'b', 's', 'o', 'c', 'k', 'e', 't']
}

pub open spec fn path_root() -> Seq<char> {
    seq!['/']
}

pub open spec fn path_script() -> Seq<char> {
    seq!['/', 'i', 'n', 'd', 'e', 'x', '.', 'j', 's']
}

pub open spec fn bad_request() -> (u32, bool, Seq<u8>) {
    (400, false, error_response_spec(400, lit("Bad Request")))
}

pub open spec fn not_found() -> (u32, bool, Seq<u8>) {
    (404, false, error_response_spec(404, lit("Not Found")))
}

/// The answer to a request head: code, upgrade, bytes.
pub open spec fn respond_spec(head: RequestHeadView, site: SiteView) -> (u32, bool, Seq<u8>) {
    match head {
        RequestHeadView::Complete { path: Some(p), headers } => {
            if path_images().len() <= p.len() && p.subrange(0, path_images().len() as int) == path_images() {
                let i = first_match(site.images, image_named(p.subrange(path_images().len() as int, p.len() as int)));
                if i >= 0 {
                    (200, false, response_spec(200, lit("OK"), lit("image/png"), site.images[i].png))
                } else {
                    not_found()
                }
            } else if p == path_websocket() {
                match handshake_key(headers) {
                    Some(k) => (101, true, upgrade_response_spec(accept_token(k))),
                    None => bad_request(),
                }
            } else if p == path_root() {
                (200, false, text_response_spec(200, lit("OK"), lit("text/html"), site.index_html))
            } else if p == path_script() {
                (200, false, text_response_spec(200, lit("OK"), lit("text/javascript"), site.index_js))
            } else {
                not_found()
            }
        },
        _ => bad_request(),
    }
}

pub open spec fn response_view(r: Response) -> (u32, bool, Seq<u8>) {
    (r.code, r.upgrade, r.bytes@)
}

fn find_image(images: &Vec<Image>, n: &Vec<char>) -> (r: Option<usize>)
    ensures
        match r {
            Some(i) => first_match(images@.map_values(|i: Image| i@), image_named(n@)) == i && i < images@.len(),
            None => first_match(images@.map_values(|i: Image| i@), image_named(n@)) == -1,
        },
{
    let ghost v = images@.map_values(|i: Image| i@);
    let mut i: usize = 0;
    while i < images.len()
        invariant
            i <= images@.len(),
            v == images@.map_values(|i: Image| i@),
            forall|j: int| 0 <= j < i ==> !image_named(n@)(#[trigger] v[j]),
        decreases images@.len() - i,
    {
        if equal_chars(&images[i].name, n) {
            proof {
                lemma_first_match(v, image_named(n@), i as int);
            }
            return Some(i);
        }
        i = i + 1;
    }
    proof {
        lemma_first_match(v, image_named(n@), i as int);
    }
    None
}

fn bad_request_response() -> (r: Response)
    ensures
        response_view(r) == bad_request(),
{
    Response { code: 400, upgrade: false, bytes: write_error(400, "Bad Request") }
}

fn not_found_response() -> (r: Response)
    ensures
        response_view(r) == not_found(),
{
    Response { code: 404, upgrade: false, bytes: write_error(404, "Not Found") }
}

/// Routes a request head: an image by name, the WebSocket upgrade, the
/// document and its script; any other path is not found, and a head
/// without a path is a bad request.
pub fn respond(head: &RequestHead, site: &Site) -> (r: Response)
    ensures
        response_view(r) == respond_spec(head@, site@),
{
    let (path, headers) = match head {
        RequestHead::Complete { path: Some(p), headers } => (p, headers),
        _ => return bad_request_response(),
    };
    let images = vec!['/', 'i', 'm', 'g', '/'];
    let websocket = vec!['/', 'w', 'e', 'b', 's', 'o', 'c', 'k', 'e', 't'];
    let root = vec!['/'];
    let script = vec!['/', 'i', 'n', 'd', 'e', 'x', '.', 'j', 's'];
    assert(images@ =~= path_images());
    assert(websocket@ =~= path_websocket());
    assert(root@ =~= path_root());
    assert(script@ =~= path_script());
    if starts_with_chars(path, &images) {
        let name = chars_from(path, 5);
        match find_image(&site.images, &name) {
            Some(i) => Response {
                code: 200,
                upgrade: false,
                bytes: write_response(200, "OK", "image/png".as_bytes(), site.images[i].png.as_slice()),
            },
            None => not_found_response(),
        }
    } else if equal_chars(path, &websocket) {
        match find_handshake_key(headers) {
            Some(k) => Response { code: 101, upgrade: true, bytes: write_upgrade_response(&k) },
            None => bad_request_response(),
        }
    } else if equal_chars(path, &root) {
        Response { code: 200, upgrade: false, bytes: write_text_response(200, "OK", "text/html", site.index_html.as_slice()) }
    } else if equal_chars(path, &script) {
        Response { code: 200, upgrade: false, bytes: write_text_response(200, "OK", "text/javascript", site.index_js.as_slice()) }
    } else {
        not_found_response()
    }
}

/// The answer to the bytes received so far on a connection; `None` while
/// the head is incomplete and still under the size bound.
pub open spec fn handle_spec(buf: Seq<u8>, site: SiteView) -> Option<(u32, bool, Seq<u8>)> {
    match request_head_of(buf) {
        RequestHeadView::Partial => if buf.len() < MAX_REQUEST_HEAD {
            None
        } else {
            Some(bad_request())
        },
        head => Some(respond_spec(head, site)),
    }
}

/// Reads the request head from the bytes received so far and answers it;
/// `None` asks for more bytes.
pub fn handle_request(buf: &Vec<u8>, site: &Site) -> (r: Option<Response>)
    ensures
        match r {
            Some(resp) => handle_spec(buf@, site@) == Some(response_view(resp)),
            None => handle_spec(buf@, site@) == None::<(u32, bool, Seq<u8>)>,
        },
{
    let head = parse_request_head(buf);
    match head {
        RequestHead::Partial => {
            if buf.len() < MAX_REQUEST_HEAD {
                None
            } else {
                Some(bad_request_response())
            }
        },
        _ => Some(respond(&head, site)),
    }
}

/// A request for the upgrade path whose headers carry no handshake key is
/// answered 400 and never upgraded.
pub proof fn lemma_upgrade_without_key_refused(headers: Seq<HeaderView>, site: SiteView)
    requires
        header_index(headers, name_key()) < 0,
    ensures
        ({
            let (code, upgrade, _) = respond_spec(
                RequestHeadView::Complete { path: Some(path_websocket()), headers },
                site,
            );
            code == 400 && !upgrade
        }),
{
    assert(path_websocket().subrange(0, path_images().len() as int)[1] != path_images()[1]);
}

} // verus!
