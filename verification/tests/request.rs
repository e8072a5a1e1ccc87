use phroxy::request::{extension_of, media_type_of, path_from_line, Request};
use phroxy::server::{Asset, AssetFile};

fn assets() -> Asset {
    Asset::new(vec![
        AssetFile { name: "style.css".to_string(), bytes: b"body{}".to_vec() },
        AssetFile { name: "img/logo.png".to_string(), bytes: vec![0x89, 0x50] },
        AssetFile { name: "LICENSE".to_string(), bytes: b"MIT".to_vec() },
        AssetFile { name: "notes.txt".to_string(), bytes: b"hi".to_vec() },
    ])
}

fn parsed(line: &str) -> Request {
    let mut req = Request::from("0.0.0.0:1234".to_string());
    req.parse(line);
    req
}

#[test]
fn test_path_from_line() {
    assert_eq!("", path_from_line("GET / HTTP/1.1"));
    assert_eq!("dawg", path_from_line("GET /dawg HTTP/1.1"));
    assert_eq!("users/414", path_from_line("GET /users/414 HTTP/1.1"));
    assert_eq!("", path_from_line("GET /users/414 HTTP/1.0"));
    assert_eq!("", path_from_line("  get /users/414 http/1.1"));
    assert_eq!("", path_from_line("POST /users HTTP/1.1"));
    assert_eq!(
        "()#)%# #%) *# )#",
        path_from_line("GET /()#)%# #%) *# )# HTTP/1.1")
    );
}

#[test]
fn test_url() {
    let req = parsed("GET / HTTP/1.1");
    assert_eq!("0.0.0.0:1234/", req.url());
    let req = parsed("GET /phkt.io HTTP/1.1");
    assert_eq!("0.0.0.0:1234/phkt.io", req.url());
    let req = parsed("GET /phkt.io/1/phd HTTP/1.1");
    assert_eq!("0.0.0.0:1234/phkt.io/1/phd", req.url());
}

#[test]
fn request_line_examples() {
    assert_eq!(path_from_line("GET / HTTP/1.1"), "");
    assert_eq!(path_from_line("GET /a/b HTTP/1.1"), "a/b");
    assert_eq!(path_from_line("POST /x HTTP/1.1"), "");
    assert_eq!(path_from_line("GET /x HTTP/1.0"), "");
}

#[test]
fn request_line_without_a_path_is_empty() {
    assert_eq!(path_from_line(""), "");
    assert_eq!(path_from_line("GET HTTP/1.1"), "");
    assert_eq!(path_from_line("GET  HTTP/1.1"), "");
    assert_eq!(path_from_line("GET /x"), "");
}

#[test]
fn request_line_ends_with_the_exact_version() {
    assert_eq!(path_from_line("GET /x HTTP/1.10"), "");
    assert_eq!(path_from_line("GET /x HTTP/1.1 "), "");
    assert_eq!(path_from_line("GET /x HTTP/1.1\r"), "");
    assert_eq!(path_from_line("GET /x HTTP/1.1\0\0"), "");
    assert_eq!(path_from_line("GET /a HTTP/1.1 HTTP/1.1"), "a HTTP/1.1");
    assert_eq!(path_from_line("GET /caf\u{e9} HTTP/1.1"), "caf\u{e9}");
    assert_eq!(path_from_line(" GET /x HTTP/1.1"), "");
    assert_eq!(path_from_line("GET x HTTP/1.1"), "");
}

#[test]
fn new_request_asks_for_nothing() {
    let req = Request::from("127.0.0.1:8080".to_string());
    assert_eq!(req.addr, "127.0.0.1:8080");
    assert_eq!(req.path, "");
    assert_eq!(req.target_url(), "");
}

#[test]
fn short_target_url_drops_one_leading_scheme() {
    let mut req = Request::from("a:1".to_string());
    req.path = "gopher://phkt.io/1/phd".to_string();
    assert_eq!(req.target_url(), "gopher://phkt.io/1/phd");
    assert_eq!(req.short_target_url(), "phkt.io/1/phd");
    req.path = "phkt.io".to_string();
    assert_eq!(req.short_target_url(), "phkt.io");
    req.path = "x/gopher://y".to_string();
    assert_eq!(req.short_target_url(), "x/gopher://y");
}

#[test]
fn static_files_are_found_by_name() {
    let assets = assets();
    let req = parsed("GET /style.css HTTP/1.1");
    assert!(req.is_static_file(&assets));
    assert_eq!(req.static_file_bytes(&assets), Some(&b"body{}".to_vec()));
    let req = parsed("GET /missing.css HTTP/1.1");
    assert!(!req.is_static_file(&assets));
    assert_eq!(req.static_file_bytes(&assets), None);
}

#[test]
fn content_type_follows_the_extension() {
    let assets = assets();
    assert_eq!(parsed("GET /style.css HTTP/1.1").content_type(&assets), "text/css");
    assert_eq!(parsed("GET /img/logo.png HTTP/1.1").content_type(&assets), "image/png");
    assert_eq!(parsed("GET /notes.txt HTTP/1.1").content_type(&assets), "text/plain");
    assert_eq!(parsed("GET /LICENSE HTTP/1.1").content_type(&assets), "text/plain");
    assert_eq!(
        parsed("GET /phkt.io/file.css HTTP/1.1").content_type(&assets),
        "text/html; charset=UTF-8"
    );
}

#[test]
fn media_types() {
    let of = |ext: &str| media_type_of(&ext.chars().collect::<Vec<char>>());
    assert_eq!(of("jpg"), "image/jpeg");
    assert_eq!(of("jpeg"), "image/jpeg");
    assert_eq!(of("png"), "image/png");
    assert_eq!(of("gif"), "image/gif");
    assert_eq!(of("css"), "text/css");
    assert_eq!(of("js"), "text/javascript");
    assert_eq!(of("json"), "application/json");
    assert_eq!(of("html"), "text/html");
    assert_eq!(of("txt"), "text/plain");
    assert_eq!(of(""), "text/plain");
    assert_eq!(of("JPG"), "text/plain");
}

#[test]
fn extensions() {
    let of = |path: &str| {
        extension_of(&path.chars().collect::<Vec<char>>()).map(|e| e.into_iter().collect::<String>())
    };
    assert_eq!(of("a.css"), Some("css".to_string()));
    assert_eq!(of("a.tar.gz"), Some("gz".to_string()));
    assert_eq!(of("dir.d/file"), None);
    assert_eq!(of("dir/.hidden"), None);
    assert_eq!(of(".hidden"), None);
    assert_eq!(of("file."), Some("".to_string()));
    assert_eq!(of("file"), None);
    assert_eq!(of(""), None);
}
