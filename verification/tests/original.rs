use beams::binary::{binary_path, cache_dir, Tool};
use beams::cli::{parse_host_port, parse_target};
use beams::error::BeamsError;
use beams::output::render_qr;
use beams::parser::{extract_bore_address, extract_public_url, request_line};
use beams::ready::hostname_of;

#[test]
fn cloudflared_asset_via_tool() {
    assert_eq!(
        Tool::Cloudflared.asset("macos", "aarch64").unwrap(),
        "cloudflared-darwin-arm64.tgz"
    );
    assert_eq!(
        Tool::Cloudflared.asset("linux", "x86_64").unwrap(),
        "cloudflared-linux-amd64"
    );
}

#[test]
fn bore_asset_macos_arm() {
    assert_eq!(
        Tool::Bore.asset("macos", "aarch64").unwrap(),
        "bore-v0.6.0-aarch64-apple-darwin.tar.gz"
    );
}

#[test]
fn bore_asset_linux_x64_is_musl() {
    assert_eq!(
        Tool::Bore.asset("linux", "x86_64").unwrap(),
        "bore-v0.6.0-x86_64-unknown-linux-musl.tar.gz"
    );
}

#[test]
fn bore_asset_windows_is_zip() {
    assert_eq!(
        Tool::Bore.asset("windows", "x86_64").unwrap(),
        "bore-v0.6.0-x86_64-pc-windows-msvc.zip"
    );
}

#[test]
fn unsupported_platform_errors() {
    assert!(matches!(
        Tool::Bore.asset("plan9", "sparc"),
        Err(BeamsError::Download(_))
    ));
}

#[test]
fn bore_download_url_is_pinned() {
    assert_eq!(
        Tool::Bore.download_url("bore-v0.6.0-x86_64-unknown-linux-musl.tar.gz"),
        "https://github.com/ekzhang/bore/releases/download/v0.6.0/bore-v0.6.0-x86_64-unknown-linux-musl.tar.gz"
    );
}

#[test]
fn cloudflared_download_url_is_latest() {
    assert_eq!(
        Tool::Cloudflared.download_url("cloudflared-linux-amd64"),
        "https://github.com/cloudflare/cloudflared/releases/latest/download/cloudflared-linux-amd64"
    );
}

#[test]
fn binary_path_lives_under_cache_dir() {
    let dir = cache_dir().unwrap();
    let path = binary_path(Tool::Cloudflared, "linux").unwrap();
    assert!(path.starts_with(&dir));
    let name = path.file_name().unwrap().to_str().unwrap();
    assert!(name == "cloudflared" || name == "cloudflared.exe");
}

#[test]
fn host_port_from_bare_port() {
    assert_eq!(
        parse_host_port("3000").unwrap(),
        ("localhost".to_string(), 3000)
    );
}

#[test]
fn host_port_from_host_colon_port() {
    assert_eq!(
        parse_host_port("127.0.0.1:5432").unwrap(),
        ("127.0.0.1".to_string(), 5432)
    );
}

#[test]
fn host_port_from_url() {
    assert_eq!(
        parse_host_port("http://localhost:8080").unwrap(),
        ("localhost".to_string(), 8080)
    );
}

#[test]
fn host_port_rejects_garbage() {
    assert!(matches!(
        parse_host_port("nope"),
        Err(BeamsError::InvalidTarget(_))
    ));
}

#[test]
fn bare_port_becomes_localhost_url() {
    assert_eq!(parse_target("3000").unwrap(), "http://localhost:3000");
}

#[test]
fn full_http_url_is_unchanged() {
    assert_eq!(
        parse_target("http://localhost:8080").unwrap(),
        "http://localhost:8080"
    );
}

#[test]
fn full_https_url_is_unchanged() {
    assert_eq!(
        parse_target("https://127.0.0.1:8080").unwrap(),
        "https://127.0.0.1:8080"
    );
}

#[test]
fn host_port_without_scheme_gets_http() {
    assert_eq!(
        parse_target("localhost:3000").unwrap(),
        "http://localhost:3000"
    );
}

#[test]
fn port_zero_is_invalid() {
    assert!(matches!(
        parse_target("0"),
        Err(BeamsError::InvalidTarget(_))
    ));
}

#[test]
fn garbage_is_invalid() {
    assert!(matches!(
        parse_target("not a target"),
        Err(BeamsError::InvalidTarget(_))
    ));
}

#[test]
fn render_qr_returns_non_empty_block() {
    let qr = render_qr("https://happy-cat-42.trycloudflare.com").unwrap();
    assert!(!qr.trim().is_empty());
    // Unicode QR uses block glyphs; the output should contain newlines (multi-row).
    assert!(qr.contains('\n'));
}

#[test]
fn request_line_from_cloudflared_debug_json() {
    let request = r#"{"connIndex":0,"content-length":0,"event":1,"headers":{"User-Agent":["curl/8.21.0"]},"host":"a-b.trycloudflare.com","level":"debug","message":"GET https://a-b.trycloudflare.com/nope?x=1 HTTP/1.1","originService":"http://127.0.0.1:4190","path":"/nope","time":"2026-09-16T08:17:03Z"}"#;
    assert_eq!(request_line(request).as_deref(), Some("GET /nope?x=1"));

    let response = r#"{"connIndex":0,"content-length":335,"event":1,"level":"debug","message":"404 File not found","originService":"http://127.0.0.1:4190","time":"2026-09-16T08:17:03Z"}"#;
    assert_eq!(request_line(response), None);

    let probe = request.replace("curl/8.21.0", "beams/0.2.3");
    assert_eq!(request_line(&probe), None);

    assert_eq!(request_line("not json"), None);
}

#[test]
fn extracts_bore_address() {
    let line = "2024-01-01 INFO bore_cli::client: listening at bore.pub:41234";
    assert_eq!(
        extract_bore_address(line).as_deref(),
        Some("bore.pub:41234")
    );
}

#[test]
fn extracts_bore_remote_port_field() {
    let line = "INFO connected to server remote_port=41234";
    assert_eq!(
        extract_bore_address(line).as_deref(),
        Some("bore.pub:41234")
    );
}

#[test]
fn bore_ignores_unrelated() {
    assert_eq!(extract_bore_address("INFO starting client"), None);
}

#[test]
fn extracts_url_from_boxed_log_line() {
    let line = "2024-01-01T00:00:00Z INF |  https://happy-cat-42.trycloudflare.com   |";
    assert_eq!(
        extract_public_url(line).as_deref(),
        Some("https://happy-cat-42.trycloudflare.com")
    );
}

#[test]
fn extracts_plain_url() {
    let line = "https://blue-tree-7.trycloudflare.com";
    assert_eq!(
        extract_public_url(line).as_deref(),
        Some("https://blue-tree-7.trycloudflare.com")
    );
}

#[test]
fn ignores_non_trycloudflare_urls() {
    let line = "INF connecting to https://api.cloudflare.com/foo";
    assert_eq!(extract_public_url(line), None);
}

#[test]
fn ignores_lines_without_url() {
    assert_eq!(extract_public_url("INF starting tunnel"), None);
}

#[test]
fn hostname_of_strips_scheme_port_and_path() {
    assert_eq!(
        hostname_of("https://happy-cat-42.trycloudflare.com"),
        "happy-cat-42.trycloudflare.com"
    );
    assert_eq!(
        hostname_of("http://myapp.loca.lt/some/path"),
        "myapp.loca.lt"
    );
    // bore hands back a bare host:port, with no scheme.
    assert_eq!(hostname_of("bore.pub:41234"), "bore.pub");
}
