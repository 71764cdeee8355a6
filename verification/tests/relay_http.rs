use voiddrop::relay::http::{
    classify_first_line, download_reply_at, html_code_page, make_http_header, percent_decode,
    begin_upload, finish_upload, read_header_line, route_request, upload_accepted, upload_rejected,
    FirstLine, HeaderLine,
    HttpBody, HttpRoute,
};
use voiddrop::relay::session::SessionManager;

fn page(session_id: &str, code: &str) -> String {
    let is_alpha = code.len() == 4 && !code.chars().all(|c| c.is_ascii_digit());
    let label = if is_alpha { "4-character" } else { "4-digit" };
    format!(
        r#"<!DOCTYPE html>
<html><head><meta charset="UTF-8"><meta name="viewport" content="width=device-width,initial-scale=1">
<title>VoidDrop</title><style>
body{{font-family:sans-serif;background:#0a0a0f;color:#fff;display:flex;justify-content:center;align-items:center;height:100vh;margin:0}}
.card{{text-align:center;padding:2rem;border:1px solid #6c63ff;border-radius:12px;background:#12121a;max-width:320px}}
h1{{color:#6c63ff;margin:0 0 0.5rem}}p{{color:#888;margin:0 0 1.5rem;font-size:0.9rem}}
input{{padding:0.75rem;font-size:1.5rem;text-align:center;width:100px;border:2px solid #6c63ff;border-radius:8px;background:#1a1a2e;color:#fff;outline:none;letter-spacing:4px}}
input:focus{{border-color:#00d4ff}}
button{{padding:0.75rem 2rem;font-size:1rem;background:#6c63ff;color:#fff;border:none;border-radius:8px;cursor:pointer;margin-top:1rem;font-weight:bold}}
button:hover{{background:#5a52e0}}
.hint{{color:#555;font-size:0.8rem;margin-top:1rem}}
</style></head>
<body><div class="card"><h1>⚡ VoidDrop</h1><p>Enter the {} code</p>
<input type="text" id="code" maxlength="4" autofocus{}/>
<br/><button onclick="location.href='/dl/{}?code='+encodeURIComponent(code.value)">Download</button>
<div class="hint">Code is shown on the sender's terminal</div></div></body></html>"#,
        label,
        if is_alpha { r#" oninput="this.value=this.value.toUpperCase()""# } else { "" },
        session_id
    )
}

#[test]
fn percent_decode_cases() {
    assert_eq!(percent_decode("a%20b"), "a b");
    assert_eq!(percent_decode("%41%42"), "AB");
    assert_eq!(percent_decode("plain.txt"), "plain.txt");
    assert_eq!(percent_decode("%zz!"), "%zz!");
    assert_eq!(percent_decode("%"), "%");
    assert_eq!(percent_decode("%4"), "\u{4}");
    assert_eq!(percent_decode("%+4x"), "\u{4}x");
    assert_eq!(percent_decode("%e9t%C3"), "\u{fffd}t\u{fffd}");
    assert_eq!(percent_decode("%C3%A9.txt"), "é.txt");
    assert_eq!(percent_decode("%c3%a9"), "é");
    assert_eq!(percent_decode("é%20x"), "é x");
    assert_eq!(percent_decode("%é"), "%é");
    assert_eq!(percent_decode("%-1"), "%-1");
    assert_eq!(percent_decode("100%"), "100%");
}

#[test]
fn http_header_text() {
    assert_eq!(
        make_http_header(404, "text/plain", 19),
        "HTTP/1.1 404 Not Found\r\nContent-Type: text/plain\r\nContent-Length: 19\r\nAccess-Control-Allow-Origin: *\r\n\r\n"
    );
    assert_eq!(
        make_http_header(200, "text/html", 0),
        "HTTP/1.1 200 OK\r\nContent-Type: text/html\r\nContent-Length: 0\r\nAccess-Control-Allow-Origin: *\r\n\r\n"
    );
    assert!(make_http_header(403, "a", 1).starts_with("HTTP/1.1 403 Forbidden\r\n"));
    assert!(make_http_header(500, "a", 1).starts_with("HTTP/1.1 500 Error\r\n"));
}

#[test]
fn code_pages() {
    assert_eq!(html_code_page("4829", "4829"), page("4829", "4829"));
    assert_eq!(html_code_page("plans.zip", "X9P1"), page("plans.zip", "X9P1"));
    assert_eq!(html_code_page("s", "12345"), page("s", "12345"));
    assert_eq!(html_code_page("s", "é12"), page("s", "é12"));
}

#[test]
fn first_line_kinds() {
    assert!(matches!(classify_first_line("  \r\n"), FirstLine::Empty));
    match classify_first_line("GET /dl/x HTTP/1.1\r\n") {
        FirstLine::Http(t) => assert_eq!(t, "GET /dl/x HTTP/1.1"),
        _ => panic!(),
    }
    assert!(matches!(classify_first_line("POST /upload/x HTTP/1.1"), FirstLine::Http(_)));
    match classify_first_line(" {\"type\":\"join\"}\n") {
        FirstLine::Message(t) => assert_eq!(t, "{\"type\":\"join\"}"),
        _ => panic!(),
    }
}

#[test]
fn header_lines() {
    assert!(matches!(read_header_line("Content-Length: 42\r\n"), HeaderLine::ContentLength(42)));
    assert!(matches!(read_header_line("content-length:7"), HeaderLine::ContentLength(7)));
    assert!(matches!(read_header_line("Content-Length: +7"), HeaderLine::ContentLength(7)));
    assert!(matches!(read_header_line("Content-Length: x1"), HeaderLine::ContentLength(0)));
    assert!(matches!(
        read_header_line("Content-Length: 99999999999999999999999"),
        HeaderLine::ContentLength(0)
    ));
    assert!(matches!(read_header_line("CONTENT-LENGTH: 5"), HeaderLine::Other));
    assert!(matches!(read_header_line("Host: relay"), HeaderLine::Other));
    assert!(matches!(read_header_line("\r\n"), HeaderLine::End));
}

#[test]
fn routes() {
    match route_request("GET /dl/abc%20d?code=1234 HTTP/1.1") {
        HttpRoute::Download { session_id, query_code } => {
            assert_eq!(session_id, "abc d");
            assert_eq!(query_code, "1234");
        }
        _ => panic!(),
    }
    match route_request("POST /upload/x%41 HTTP/1.1") {
        HttpRoute::Upload { session_id } => assert_eq!(session_id, "xA"),
        _ => panic!(),
    }
    match route_request("GET") {
        HttpRoute::Download { session_id, query_code } => {
            assert_eq!(session_id, "");
            assert_eq!(query_code, "");
        }
        _ => panic!(),
    }
    match route_request("POST /elsewhere HTTP/1.1") {
        HttpRoute::Upload { session_id } => assert_eq!(session_id, ""),
        _ => panic!(),
    }
    match route_request("GET /dl/a?x=1?code=9?code=2 HTTP/1.1") {
        HttpRoute::Download { session_id, query_code } => {
            assert_eq!(session_id, "a");
            assert_eq!(query_code, "9");
        }
        _ => panic!(),
    }
}

fn text(b: &HttpBody) -> String {
    match b {
        HttpBody::Text(t) => t.clone(),
        HttpBody::Bytes(_) => panic!("bytes"),
    }
}

#[test]
fn upload_replies() {
    let r = upload_rejected();
    assert_eq!(r.head, make_http_header(404, "text/plain", 26));
    assert_eq!(text(&r.body), "Session not found for upload");
    let a = upload_accepted();
    assert_eq!(a.head, make_http_header(200, "text/plain", 2));
    assert_eq!(text(&a.body), "OK");
}

#[test]
fn downloads() {
    let mut sm = SessionManager::new();
    sm.create_at("secure".into(), "r.pdf".into(), 3, "4829".into(), true, 0);
    // Not uploaded yet.
    let r = download_reply_at(&mut sm, "4829", "", 0);
    assert_eq!(r.head, make_http_header(404, "text/plain", 19));
    assert_eq!(text(&r.body), "Session not found");
    sm.upload_start("4829");
    sm.store_file("4829", &[1, 2, 3]);
    let r = download_reply_at(&mut sm, "4829", "", 0);
    let html = page("4829", "4829");
    assert_eq!(r.head, make_http_header(200, "text/html; charset=utf-8", html.len()));
    assert_eq!(text(&r.body), html);
    let r = download_reply_at(&mut sm, "4829", "1111", 0);
    assert_eq!(r.head, make_http_header(403, "text/plain", 11));
    assert_eq!(text(&r.body), "Invalid code");
    let r = download_reply_at(&mut sm, "4829", "4829", 0);
    assert_eq!(
        r.head,
        "HTTP/1.1 200 OK\r\nContent-Type: application/octet-stream\r\nContent-Length: 3\r\nContent-Disposition: attachment; filename=\"r.pdf\"\r\nAccess-Control-Allow-Origin: *\r\n\r\n"
    );
    match r.body {
        HttpBody::Bytes(b) => assert_eq!(b, vec![1, 2, 3]),
        _ => panic!(),
    }
    // Expired.
    let r = download_reply_at(&mut sm, "4829", "4829", 600);
    assert_eq!(text(&r.body), "Session not found");
}

#[test]
fn fast_download_needs_no_code() {
    let mut sm = SessionManager::new();
    sm.create_at("fast".into(), "p.jpg".into(), 1, "p.jpg".into(), true, 0);
    sm.store_file("p.jpg", &[5]);
    let r = download_reply_at(&mut sm, "p.jpg", "", 1);
    assert!(matches!(r.body, HttpBody::Bytes(ref b) if b == &vec![5]));
}

#[test]
fn non_ascii_name_is_found() {
    let mut sm = SessionManager::new();
    sm.create_at("fast".into(), "é.txt".into(), 2, "é.txt".into(), true, 0);
    sm.store_file("é.txt", &[7, 8]);
    let id = match route_request("GET /dl/%C3%A9.txt HTTP/1.1") {
        HttpRoute::Download { session_id, .. } => session_id,
        _ => panic!(),
    };
    assert_eq!(id, "é.txt");
    let r = download_reply_at(&mut sm, &id, "", 1);
    match r.body {
        HttpBody::Bytes(b) => assert_eq!(b, vec![7, 8]),
        _ => panic!("no file"),
    }
}

#[test]
fn blast_download_needs_code() {
    let mut sm = SessionManager::new();
    let id = sm.create_at("blast".into(), "plans.zip".into(), 3, "X9P1".into(), false, 0);
    assert_eq!(id, "plans.zip");
    sm.upload_start("plans.zip");
    sm.store_file("plans.zip", &[1, 2, 3]);
    let r = download_reply_at(&mut sm, "plans.zip", "", 1);
    assert_eq!(text(&r.body), page("plans.zip", "X9P1"));
    let r = download_reply_at(&mut sm, "plans.zip", "AAAA", 1);
    assert_eq!(r.head, make_http_header(403, "text/plain", 11));
    assert_eq!(text(&r.body), "Invalid code");
    let r = download_reply_at(&mut sm, "plans.zip", "X9P1", 1);
    match r.body {
        HttpBody::Bytes(b) => assert_eq!(b, vec![1, 2, 3]),
        _ => panic!("no file"),
    }
}

#[test]
fn upload_begins_and_finishes() {
    let mut sm = SessionManager::new();
    let r = begin_upload(&mut sm, "nope").expect("refused");
    assert_eq!(r.head, make_http_header(404, "text/plain", 26));
    assert_eq!(text(&r.body), "Session not found for upload");
    sm.create_at("fast".into(), "a.bin".into(), 2, "a.bin".into(), true, 0);
    assert!(begin_upload(&mut sm, "a.bin").is_none());
    assert_eq!(sm.get_file("a.bin"), Some(vec![]));
    let r = finish_upload(&mut sm, "a.bin", &[9, 9]);
    assert_eq!(text(&r.body), "OK");
    assert_eq!(sm.get_file("a.bin"), Some(vec![9, 9]));
    let d = download_reply_at(&mut sm, "a.bin", "", 1);
    assert!(matches!(d.body, HttpBody::Bytes(ref b) if b == &vec![9, 9]));
}

#[test]
fn escaped_ascii_decodes_to_itself() {
    assert_eq!(percent_decode("100%25%20off%2Fnow"), "100% off/now");
    assert_eq!(percent_decode("%2f%2F%61b"), "//ab");
}
