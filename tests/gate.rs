use twipo_synchro::gate::{handle_request, websocket_accept, write_error, write_response, Image, Site};

fn site() -> Site {
    Site {
        index_html: b"<html></html>".to_vec(),
        index_js: b"go();".to_vec(),
        images: vec![Image { name: "bg.png".chars().collect(), png: vec![1, 2, 3] }],
    }
}

fn answer(request: &str) -> (u32, bool, String) {
    let r = handle_request(&request.as_bytes().to_vec(), &site()).expect("complete head");
    (r.code, r.upgrade, String::from_utf8(r.bytes).unwrap())
}

const UPGRADE_HEADERS: &str = "Host: x\r\nUpgrade: WebSocket\r\nConnection: keep-alive, Upgrade\r\nSec-WebSocket-Version: 13\r\n";

#[test]
fn accept_token_of_the_protocol_example() {
    let token = websocket_accept(&b"dGhlIHNhbXBsZSBub25jZQ==".to_vec());
    assert_eq!(String::from_utf8(token).unwrap(), "s3pPLMBiTxaQ9kYGzzhZRbK+xOo=");
}

#[test]
fn upgrade_with_key_switches_protocols() {
    let req = format!("GET /websocket HTTP/1.1\r\n{}Sec-WebSocket-Key: dGhlIHNhbXBsZSBub25jZQ==\r\n\r\n", UPGRADE_HEADERS);
    let (code, upgrade, text) = answer(&req);
    assert_eq!(code, 101);
    assert!(upgrade);
    assert_eq!(
        text,
        "HTTP/1.1 101 Switching Protocols\r\nSec-WebSocket-Accept: s3pPLMBiTxaQ9kYGzzhZRbK+xOo=\r\nConnection: Upgrade\r\nUpgrade: websocket\r\n\r\n"
    );
}

#[test]
fn upgrade_without_key_is_bad_request() {
    let req = format!("GET /websocket HTTP/1.1\r\n{}\r\n", UPGRADE_HEADERS);
    let (code, upgrade, text) = answer(&req);
    assert_eq!(code, 400);
    assert!(!upgrade);
    assert!(text.starts_with("HTTP/1.1 400 Bad Request\r\n"));
}

#[test]
fn upgrade_with_wrong_version_is_bad_request() {
    let req = "GET /websocket HTTP/1.1\r\nUpgrade: websocket\r\nConnection: Upgrade\r\nSec-WebSocket-Version: 8\r\nSec-WebSocket-Key: abc\r\n\r\n";
    let (code, upgrade, _) = answer(req);
    assert_eq!(code, 400);
    assert!(!upgrade);
}

#[test]
fn upgrade_without_connection_upgrade_is_bad_request() {
    let req = "GET /websocket HTTP/1.1\r\nUpgrade: websocket\r\nConnection: keep-alive\r\nSec-WebSocket-Version: 13\r\nSec-WebSocket-Key: abc\r\n\r\n";
    assert_eq!(answer(req).0, 400);
}

#[test]
fn document_root_is_served_as_html() {
    let (code, upgrade, text) = answer("GET / HTTP/1.1\r\n\r\n");
    assert_eq!(code, 200);
    assert!(!upgrade);
    assert_eq!(
        text,
        "HTTP/1.1 200 OK\r\nContent-Type: text/html; charset=utf-8\r\nContent-Length: 13\r\n\r\n<html></html>"
    );
}

#[test]
fn script_is_served_as_javascript() {
    let (code, _, text) = answer("GET /index.js HTTP/1.1\r\n\r\n");
    assert_eq!(code, 200);
    assert_eq!(
        text,
        "HTTP/1.1 200 OK\r\nContent-Type: text/javascript; charset=utf-8\r\nContent-Length: 5\r\n\r\ngo();"
    );
}

#[test]
fn known_image_is_served() {
    let r = handle_request(&b"GET /img/bg.png HTTP/1.1\r\n\r\n".to_vec(), &site()).unwrap();
    assert_eq!(r.code, 200);
    let mut expected = b"HTTP/1.1 200 OK\r\nContent-Type: image/png\r\nContent-Length: 3\r\n\r\n".to_vec();
    expected.extend_from_slice(&[1, 2, 3]);
    assert_eq!(r.bytes, expected);
}

#[test]
fn unknown_image_and_path_are_not_found() {
    let (code, _, text) = answer("GET /img/none.png HTTP/1.1\r\n\r\n");
    assert_eq!(code, 404);
    assert_eq!(
        text,
        "HTTP/1.1 404 Not Found\r\nContent-Type: text/html; charset=utf-8\r\nContent-Length: 22\r\n\r\n<h1>404 Not Found</h1>"
    );
    assert_eq!(answer("GET /other HTTP/1.1\r\n\r\n").0, 404);
}

#[test]
fn malformed_request_is_bad_request() {
    let (code, upgrade, _) = answer("GET / HTTP/1.1\r\nBad Header Line\r\n\r\n");
    assert_eq!(code, 400);
    assert!(!upgrade);
}

#[test]
fn partial_head_waits_for_more_bytes() {
    assert!(handle_request(&b"GET / HTTP/1.1\r\nHost: x\r\n".to_vec(), &site()).is_none());
}

#[test]
fn oversized_partial_head_is_refused() {
    let mut req = b"GET / HTTP/1.1\r\nX-Long: ".to_vec();
    req.extend(std::iter::repeat(b'a').take(20000));
    let r = handle_request(&req, &site()).unwrap();
    assert_eq!(r.code, 400);
}

#[test]
fn response_builders_give_exact_bytes() {
    let r = write_response(200, "OK", b"image/png", &[9]);
    assert_eq!(r, b"HTTP/1.1 200 OK\r\nContent-Type: image/png\r\nContent-Length: 1\r\n\r\n\x09".to_vec());
    let e = write_error(400, "Bad Request");
    assert_eq!(
        String::from_utf8(e).unwrap(),
        "HTTP/1.1 400 Bad Request\r\nContent-Type: text/html; charset=utf-8\r\nContent-Length: 24\r\n\r\n<h1>400 Bad Request</h1>"
    );
}
