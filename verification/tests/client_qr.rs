use voiddrop::client::clipboard::{clipboard_text_path, first_file};
use voiddrop::client::qr_server::{
    file_response_head, html_code_page, make_text_response, qr_server_url, route_qr_bytes,
    keeps_serving, route_qr_request, served_filename, QrRoute,
};
use voiddrop::client::ui::{parse_public_ip, public_ip_from_reply, qr_display, qr_lines};

#[test]
fn qr_urls() {
    assert_eq!(qr_server_url(Some("192.168.1.5".into()), 8080, "s1"), "http://192.168.1.5:8080/dl/s1");
    assert_eq!(qr_server_url(None, 1, "x"), "http://127.0.0.1:1/dl/x");
}

#[test]
fn text_responses() {
    assert_eq!(
        make_text_response(404, "text/plain", "Not found"),
        "HTTP/1.1 404 Not Found\r\nContent-Type: text/plain\r\nContent-Length: 9\r\nAccess-Control-Allow-Origin: *\r\n\r\nNot found"
    );
    let r = make_text_response(200, "text/html", "é");
    assert!(r.contains("Content-Length: 2\r\n"));
}

#[test]
fn pages() {
    let digits = html_code_page("s", Some("1234"));
    assert!(digits.contains("Enter the 4-digit code"));
    assert!(!digits.contains("toUpperCase"));
    let alpha = html_code_page("s", Some("X9P1"));
    assert!(alpha.contains("Enter the 4-character code"));
    assert!(alpha.contains(" oninput=\"this.value=this.value.toUpperCase()\"/>"));
    assert_eq!(html_code_page("s", None), digits);
}

#[test]
fn qr_routes() {
    match route_qr_request("GET /dl/s1 HTTP/1.1\r\n", "s1", Some("1234")) {
        QrRoute::Reply(r) => {
            assert!(r.starts_with("HTTP/1.1 200 OK\r\nContent-Type: text/html\r\n"));
            assert!(r.ends_with(&html_code_page("s1", Some("1234"))));
        }
        _ => panic!(),
    }
    match route_qr_request("GET /dl/s1?code=9999 HTTP/1.1", "s1", Some("1234")) {
        QrRoute::Reply(r) => assert_eq!(r, make_text_response(403, "text/plain", "Invalid code")),
        _ => panic!(),
    }
    assert!(matches!(route_qr_request("GET /dl/s1?code=1234 HTTP/1.1", "s1", Some("1234")), QrRoute::ServeFile));
    assert!(matches!(route_qr_request("GET /dl/s1 HTTP/1.1", "s1", None), QrRoute::ServeFile));
    assert!(matches!(route_qr_request("GET /dl/s12 HTTP/1.1", "s1", None), QrRoute::ServeFile));
    match route_qr_request("GET /other HTTP/1.1", "s1", None) {
        QrRoute::Reply(r) => assert_eq!(r, make_text_response(404, "text/plain", "Not found")),
        _ => panic!(),
    }
    match route_qr_request("", "s1", None) {
        QrRoute::Reply(r) => assert!(r.starts_with("HTTP/1.1 404")),
        _ => panic!(),
    }
    assert!(matches!(route_qr_bytes(b"GET /dl/s1?code=1234 HTTP/1.1", "s1", Some("1234")), QrRoute::ServeFile));
    assert!(matches!(route_qr_bytes(b"GET /nope\xff HTTP/1.1", "s1", None), QrRoute::Reply(_)));
}

#[test]
fn served_names() {
    assert_eq!(served_filename("C:\\Users\\me\\file.txt"), "file.txt");
    assert_eq!(served_filename("/home/me/pic.png"), "pic.png");
    assert_eq!(served_filename("plain"), "plain");
    assert_eq!(served_filename("dir/"), "");
    assert_eq!(
        file_response_head(12, "/tmp/a.bin"),
        "HTTP/1.1 200 OK\r\nContent-Type: application/octet-stream\r\nContent-Length: 12\r\nContent-Disposition: attachment; filename=\"a.bin\"\r\nAccess-Control-Allow-Origin: *\r\n\r\n"
    );
}

#[test]
fn public_ips() {
    assert_eq!(parse_public_ip("HTTP/1.1 200 OK\r\nX: y\r\n\r\n 1.2.3.4\n").as_deref(), Some("1.2.3.4"));
    assert_eq!(parse_public_ip("HTTP/1.1 200 OK\r\n\r\n   "), None);
    assert_eq!(parse_public_ip("no body"), None);
    assert_eq!(public_ip_from_reply(b"HTTP/1.1 200 OK\r\n\r\n9.8.7.6").as_deref(), Some("9.8.7.6"));
}

#[test]
fn lines_of_images() {
    assert_eq!(qr_lines("ab\ncd\n"), vec!["  ab".to_string(), "  cd".to_string()]);
    assert_eq!(qr_lines("a\r\nb\r"), vec!["  a".to_string(), "  b\r".to_string()]);
    assert_eq!(qr_lines(""), Vec::<String>::new());
    assert_eq!(qr_lines("\n\n"), vec!["  ".to_string(), "  ".to_string()]);
}

#[test]
fn qr_display_draws_the_code() {
    let url = "http://relay:1/dl/abc";
    let lines = qr_display(url).unwrap();
    let image = qrcode::QrCode::new(url)
        .unwrap()
        .render::<qrcode::render::unicode::Dense1x2>()
        .dark_color(qrcode::render::unicode::Dense1x2::Dark)
        .light_color(qrcode::render::unicode::Dense1x2::Light)
        .build();
    let expected: Vec<String> = image.lines().map(|l| format!("  {}", l)).collect();
    assert_eq!(lines, expected);
    assert!(lines.len() > 10);
    let too_long = "x".repeat(8000);
    assert!(qr_display(&too_long).is_none());
}

#[test]
fn clipboard_choices() {
    assert_eq!(first_file(&vec![false, true, true]), Some(1));
    assert_eq!(first_file(&vec![false]), None);
    assert_eq!(first_file(&vec![]), None);
    assert_eq!(clipboard_text_path("  /tmp/a.txt \n").as_deref(), Some("/tmp/a.txt"));
    assert_eq!(clipboard_text_path(" \t\n"), None);
}

#[test]
fn server_stops_after_the_file() {
    assert!(!keeps_serving(&QrRoute::ServeFile, true));
    assert!(keeps_serving(&QrRoute::ServeFile, false));
    assert!(keeps_serving(&QrRoute::Reply("x".into()), false));
    assert!(keeps_serving(&QrRoute::Reply("x".into()), true));
}
