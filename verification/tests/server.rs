use sync_endpoint::server::{Server, BIND_ADDRESS};

#[test]
fn binds_to_every_interface_and_any_port() {
    assert_eq!(BIND_ADDRESS, "0.0.0.0:0");
}

#[test]
fn base_url_names_the_port() {
    assert_eq!(Server::on_port(8080).base_url(), "http://0.0.0.0:8080");
    assert_eq!(Server::on_port(0).base_url(), "http://0.0.0.0:0");
    assert_eq!(Server::on_port(7).base_url(), "http://0.0.0.0:7");
    assert_eq!(Server::on_port(10).base_url(), "http://0.0.0.0:10");
    assert_eq!(Server::on_port(65535).base_url(), "http://0.0.0.0:65535");
    assert_eq!(Server::on_port(8080).port(), 8080);
}

#[test]
fn base_url_agrees_with_std_formatting_for_every_port() {
    for port in 0..=u16::MAX {
        assert_eq!(Server::on_port(port).base_url(), format!("http://0.0.0.0:{}", port));
    }
}

#[test]
fn url_puts_the_path_behind_the_base() {
    let server = Server::on_port(3000);
    assert_eq!(server.url("/health"), "http://0.0.0.0:3000/health");
    assert_eq!(
        server.url("/wait-for-second-party/123"),
        "http://0.0.0.0:3000/wait-for-second-party/123"
    );
    assert_eq!(server.url("health"), "http://0.0.0.0:3000/health");
    assert_eq!(server.url(""), "http://0.0.0.0:3000/");
    assert_eq!(server.url("/"), "http://0.0.0.0:3000/");
}

#[test]
fn url_drops_white_space_around_and_slashes_in_front() {
    let server = Server::on_port(3000);
    assert_eq!(server.url("  /health \n"), "http://0.0.0.0:3000/health");
    assert_eq!(server.url("///a//b/"), "http://0.0.0.0:3000/a//b/");
    assert_eq!(server.url(" \t "), "http://0.0.0.0:3000/");
    assert_eq!(server.url("\u{3000}/x y\u{a0}"), "http://0.0.0.0:3000/x y");
    // white space behind the slashes stays: only the outside is trimmed
    assert_eq!(server.url("/ a"), "http://0.0.0.0:3000/ a");
    // characters of more than one byte are counted as one
    assert_eq!(server.url(" /é/ü "), "http://0.0.0.0:3000/é/ü");
}

#[test]
fn url_leaves_whole_addresses_alone() {
    let server = Server::on_port(3000);
    assert_eq!(server.url("http://example.org/a"), "http://example.org/a");
    assert_eq!(server.url("https://example.org "), "https://example.org ");
    assert_eq!(server.url("http"), "http");
    assert_eq!(server.url("httpx"), "httpx");
    // only at the very start
    assert_eq!(server.url(" http://example.org"), "http://0.0.0.0:3000/http://example.org");
    assert_eq!(server.url("htt"), "http://0.0.0.0:3000/htt");
    assert_eq!(server.url("HTTP://example.org"), "http://0.0.0.0:3000/HTTP://example.org");
}

fn std_url(port: u16, url_path: &str) -> String {
    if url_path.starts_with("http") {
        return url_path.to_string();
    }
    let path = url_path.trim().trim_start_matches('/');
    format!("http://0.0.0.0:{}/{}", port, path)
}

#[test]
fn url_trims_what_std_trims_for_every_character() {
    let server = Server::on_port(1);
    for code in 0..=0x10FFFFu32 {
        if let Some(c) = char::from_u32(code) {
            let path = format!("{c}/a{c}b/{c}");
            assert_eq!(server.url(&path), std_url(1, &path), "U+{code:04X}");
        }
    }
}
