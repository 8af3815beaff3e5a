use std::io::Write;

use beams::archive::{extract_from_tgz, extract_from_zip};
use beams::binary::{archive_kind, binary_path_in, cache_dir_from, entry_matches, ArchiveKind, Tool};
use beams::cli::{parse_host_port, parse_target};
use beams::error::BeamsError;
use beams::local::{browser_command, clipboard_commands, detected_target, live_ports, DetectedTarget, COMMON_PORTS};
use beams::output::render_qr;
use beams::parser::{extract_bore_address, extract_public_url, request_line, request_line_from_fields, RequestLogFields};
use beams::ready::{dns_reply_has_record, hostname_of, status_means_alive, LivenessWatch, Retry, RetryStep, WatchStep};
use beams::session::{pick_target, retarget_localhost, RestartStep, StartFailures};
use beams::tunnel::{BoreBackend, CloudflareBackend, LocaltunnelBackend, LocaltunnelReply, StartEvent, StartStep};

fn invalid(r: Result<String, BeamsError>) -> String {
    match r {
        Err(BeamsError::InvalidTarget(m)) => m,
        other => panic!("expected InvalidTarget, got {other:?}"),
    }
}

#[test]
fn parse_target_trims_and_drops_leading_zeros() {
    assert_eq!(parse_target("  3000 \n").unwrap(), "http://localhost:3000");
    assert_eq!(parse_target("03000").unwrap(), "http://localhost:3000");
    assert_eq!(parse_target("65535").unwrap(), "http://localhost:65535");
    assert_eq!(parse_target("1").unwrap(), "http://localhost:1");
}

#[test]
fn parse_target_rejects_out_of_range_ports_with_the_trimmed_input() {
    assert_eq!(invalid(parse_target(" 65536 ")), "65536");
    assert_eq!(invalid(parse_target("99999999999999999999")), "99999999999999999999");
    assert_eq!(invalid(parse_target("   ")), "");
    assert_eq!(invalid(parse_target("host:")), "host:");
    assert_eq!(invalid(parse_target(":80")), ":80");
    assert_eq!(invalid(parse_target("host:8o")), "host:8o");
}

#[test]
fn parse_target_keeps_host_port_digits_as_written() {
    assert_eq!(parse_target("myhost:99999").unwrap(), "http://myhost:99999");
    assert_eq!(parse_target("[::1]:8080").unwrap(), "http://[::1]:8080");
}

#[test]
fn parse_target_is_idempotent_on_examples() {
    for input in ["3000", " localhost:3000 ", "https://x.dev/a", "0042"] {
        let once = parse_target(input).unwrap();
        assert_eq!(parse_target(&once).unwrap(), once);
    }
}

#[test]
fn port_and_url_name_the_same_server() {
    for p in [1u16, 80, 3000, 65535] {
        let port = p.to_string();
        let url = parse_target(&port).unwrap();
        assert_eq!(url, format!("http://localhost:{p}"));
        assert_eq!(parse_host_port(&port).unwrap(), ("localhost".to_string(), p));
        assert_eq!(parse_host_port(&url).unwrap(), ("localhost".to_string(), p));
    }
}

#[test]
fn parse_host_port_edge_cases() {
    assert_eq!(
        parse_host_port("https://example.com:443/path").unwrap(),
        ("example.com".to_string(), 443)
    );
    assert_eq!(parse_host_port("+80").unwrap(), ("localhost".to_string(), 80));
    assert!(matches!(parse_host_port("localhost:0"), Err(BeamsError::InvalidTarget(_))));
    assert!(matches!(parse_host_port(":80"), Err(BeamsError::InvalidTarget(_))));
    assert!(matches!(parse_host_port("70000"), Err(BeamsError::InvalidTarget(_))));
    assert!(matches!(parse_host_port("-80"), Err(BeamsError::InvalidTarget(_))));
    // the error names the input as given, untrimmed
    match parse_host_port("  ") {
        Err(BeamsError::InvalidTarget(m)) => assert_eq!(m, "  "),
        other => panic!("unexpected {other:?}"),
    }
}

#[test]
fn public_url_skips_other_https_urls() {
    assert_eq!(
        extract_public_url("see https://a.com then https://b.trycloudflare.com").as_deref(),
        Some("https://b.trycloudflare.com")
    );
    assert_eq!(
        extract_public_url("INF see https://api.cloudflare.com/x or https://a-b.trycloudflare.com")
            .as_deref(),
        Some("https://a-b.trycloudflare.com")
    );
    assert_eq!(extract_public_url("only https://a.com and https://b.org here"), None);
    assert_eq!(
        extract_public_url("x https://c-d.trycloudflare.com|y").as_deref(),
        Some("https://c-d.trycloudflare.com")
    );
}

#[test]
fn bore_address_falls_back_to_remote_port_and_keeps_digits() {
    assert_eq!(
        extract_bore_address("bore.pub:abc remote_port=99").as_deref(),
        Some("bore.pub:99")
    );
    assert_eq!(extract_bore_address("bore.pub:0042 x").as_deref(), Some("bore.pub:0042"));
    assert_eq!(extract_bore_address("remote_port= 5"), None);
}

#[test]
fn request_line_cases() {
    let line = r#"  {"path":"/","message":"POST   https://h.trycloudflare.com  HTTP/1.1"}  "#;
    assert_eq!(request_line(line).as_deref(), Some("POST /"));
    let no_scheme = r#"{"path":"/x","message":"GET /x?y HTTP/1.1"}"#;
    assert_eq!(request_line(no_scheme).as_deref(), Some("GET /x?y"));
    let one_word = r#"{"path":"/x","message":"GET"}"#;
    assert_eq!(request_line(one_word), None);
    let null_path = r#"{"path":null,"message":"GET http://a/b HTTP/1.1"}"#;
    assert_eq!(request_line(null_path).as_deref(), Some("GET /b"));
    assert_eq!(request_line("[1,2]"), None);
}

#[test]
fn request_line_from_fields_skips_probes() {
    let fields = RequestLogFields {
        has_path: true,
        user_agent: Some("beams/1.0".to_string()),
        message: Some("GET https://a/b HTTP/1.1".to_string()),
    };
    assert_eq!(request_line_from_fields(&fields), None);
    let fields = RequestLogFields { user_agent: None, ..fields };
    assert_eq!(request_line_from_fields(&fields).as_deref(), Some("GET /b"));
    let fields = RequestLogFields { has_path: false, ..fields };
    assert_eq!(request_line_from_fields(&fields), None);
}

#[test]
fn hostname_has_no_path_or_port() {
    assert_eq!(hostname_of("http://a.b:8080/c:d"), "a.b");
    assert_eq!(hostname_of("plain"), "plain");
    assert_eq!(hostname_of(""), "");
}

#[test]
fn edge_530_means_tunnel_gone() {
    assert!(!status_means_alive(530));
    assert!(status_means_alive(200));
    assert!(status_means_alive(404));
    assert!(status_means_alive(502));
}

#[test]
fn dns_reply_needs_a_non_empty_answer() {
    assert!(dns_reply_has_record(r#"{"Status":0,"Answer":[{"name":"x","type":1,"data":"1.2.3.4"}]}"#));
    assert!(!dns_reply_has_record(r#"{"Status":0,"Answer":[]}"#));
    assert!(!dns_reply_has_record(r#"{"Status":3}"#));
    assert!(!dns_reply_has_record("not json"));
}

fn watch_dies_at(probes: &[bool]) -> Option<usize> {
    let mut watch = LivenessWatch::new();
    for (i, alive) in probes.iter().enumerate() {
        match watch.observe(*alive) {
            WatchStep::Watching(next) => watch = next,
            WatchStep::Dead => return Some(i),
        }
    }
    None
}

#[test]
fn watch_declares_death_at_third_failure_in_a_row() {
    assert_eq!(watch_dies_at(&[false, false, true, false, false, false, true]), Some(5));
    assert_eq!(watch_dies_at(&[false, false, true, false, false, true]), None);
    assert_eq!(watch_dies_at(&[false, false, false]), Some(2));
}

fn run_retry(attempts: u32, outcomes: &[bool]) -> (bool, usize) {
    let mut state = Retry::new(attempts);
    let mut calls = 0;
    while state.may_check() {
        let ok = outcomes[calls];
        calls += 1;
        match state.record(ok) {
            RetryStep::Succeeded => return (true, calls),
            RetryStep::SleepThen(next) => state = next,
        }
    }
    (false, calls)
}

#[test]
fn retry_stops_at_first_success_without_waiting() {
    assert_eq!(run_retry(5, &[true, true, true, true, true]), (true, 1));
    assert_eq!(run_retry(5, &[false, false, true, false, false]), (true, 3));
}

#[test]
fn retry_gives_up_after_its_attempts() {
    assert_eq!(run_retry(2, &[false, false, true]), (false, 2));
    assert_eq!(run_retry(0, &[true]), (false, 0));
}

#[test]
fn restarts_back_off_then_give_up_at_the_fifth_failure() {
    let mut f = StartFailures::new();
    let mut waits = Vec::new();
    loop {
        match f.failed() {
            RestartStep::GiveUp => break,
            RestartStep::RetryAfter { wait_secs, next } => {
                waits.push(wait_secs);
                f = next;
            }
        }
    }
    assert_eq!(waits, vec![2, 4, 8, 16]);
}

#[test]
fn a_successful_start_resets_the_backoff() {
    let f = StartFailures::new();
    let f = match f.failed() {
        RestartStep::RetryAfter { next, .. } => next,
        RestartStep::GiveUp => panic!("gave up too early"),
    };
    assert_eq!(f.in_a_row(), 1);
    let f = f.started();
    assert_eq!(f.in_a_row(), 0);
    match f.failed() {
        RestartStep::RetryAfter { wait_secs, .. } => assert_eq!(wait_secs, 2),
        RestartStep::GiveUp => panic!("gave up too early"),
    }
}

#[test]
fn live_ports_keep_probe_order() {
    let up = [false, true, false, true, false, false, false, true];
    assert_eq!(live_ports(&COMMON_PORTS, &up), vec![5173, 8000, 4321]);
    assert_eq!(live_ports(&[], &[]), Vec::<u16>::new());
}

#[test]
fn detected_target_choices() {
    assert_eq!(detected_target(&[], true), DetectedTarget::NoServer);
    assert_eq!(detected_target(&[8080], true), DetectedTarget::Port(8080));
    assert_eq!(detected_target(&[3000, 8080], false), DetectedTarget::Port(3000));
    assert_eq!(detected_target(&[3000, 8080], true), DetectedTarget::Ask);
}

#[test]
fn pick_target_from_a_list() {
    let ports = [3000, 5173, 8080];
    assert_eq!(pick_target("\n", &ports).as_deref(), Some("3000"));
    assert_eq!(pick_target(" 2 \n", &ports).as_deref(), Some("5173"));
    assert_eq!(pick_target("3", &ports).as_deref(), Some("8080"));
    assert_eq!(pick_target("4", &ports).as_deref(), Some("4"));
    assert_eq!(pick_target("9000", &ports).as_deref(), Some("9000"));
    assert_eq!(pick_target("0", &ports), None);
    assert_eq!(pick_target("70000", &ports), None);
    assert_eq!(pick_target("two", &ports), None);
}

#[test]
fn retarget_localhost_to_the_answering_address() {
    assert_eq!(retarget_localhost("3000", "127.0.0.1").unwrap(), "http://127.0.0.1:3000");
    assert_eq!(
        retarget_localhost("https://localhost:8443/app", "[::1]").unwrap(),
        "https://[::1]:8443/app"
    );
    assert_eq!(
        retarget_localhost("example.com:80", "1.2.3.4").unwrap(),
        "http://example.com:80"
    );
    assert!(matches!(retarget_localhost("nope", "1.2.3.4"), Err(BeamsError::InvalidTarget(_))));
}

#[test]
fn platform_commands() {
    let mac = clipboard_commands("macos");
    assert_eq!(mac.len(), 1);
    assert_eq!(mac[0].program, "pbcopy");
    let linux = clipboard_commands("linux");
    let programs: Vec<_> = linux.iter().map(|c| c.program).collect();
    assert_eq!(programs, vec!["wl-copy", "xclip", "xsel"]);
    assert_eq!(linux[1].args, vec!["-selection", "clipboard"]);
    assert_eq!(linux[2].args, vec!["--clipboard", "--input"]);
    assert_eq!(clipboard_commands("windows")[0].program, "clip");
    let win = browser_command("windows");
    assert_eq!(win.program, "cmd");
    assert_eq!(win.args, vec!["/C", "start", ""]);
    assert_eq!(browser_command("macos").program, "open");
    assert_eq!(browser_command("linux").program, "xdg-open");
}

fn backend(target: &str, protocol: Option<&str>) -> CloudflareBackend {
    CloudflareBackend {
        binary: std::path::PathBuf::from("cloudflared"),
        target: target.to_string(),
        protocol: protocol.map(|p| p.to_string()),
    }
}

#[test]
fn cloudflared_runs_with_host_header_and_protocol() {
    let b = backend("http://127.0.0.1:3000/app", None);
    assert_eq!(b.host_header(), "127.0.0.1:3000");
    assert_eq!(
        b.args(),
        vec![
            "tunnel", "--no-autoupdate", "--loglevel", "debug", "--output", "json",
            "--http-host-header", "127.0.0.1:3000", "--url", "http://127.0.0.1:3000/app"
        ]
    );
    let b = backend("https://localhost:8443", Some("http2"));
    let args = b.args();
    assert_eq!(args[7], "localhost:8443");
    assert_eq!(&args[10..], &["--protocol".to_string(), "http2".to_string()]);
}

#[test]
fn bore_runs_against_bore_pub() {
    let b = BoreBackend { binary: std::path::PathBuf::from("bore"), local_port: 22 };
    assert_eq!(b.args(), vec!["local", "22", "--to", "bore.pub"]);
}

#[test]
fn localtunnel_addresses() {
    let b = LocaltunnelBackend {
        subdomain: "myapp".to_string(),
        local_host: "127.0.0.1".to_string(),
        local_port: 3000,
    };
    assert_eq!(b.assign_url(), "https://localtunnel.me/myapp");
    assert_eq!(b.local_addr(), "127.0.0.1:3000");
    assert_eq!(LocaltunnelBackend::relay_addr(41234), "localtunnel.me:41234");
}

#[test]
fn localtunnel_grants() {
    let g = LocaltunnelBackend::parse_grant(
        br#"{"id":"myapp","port":41234,"max_conn_count":10,"url":"https://myapp.loca.lt"}"#,
    )
    .unwrap();
    assert_eq!((g.remote_port, g.url.as_str(), g.max_conn), (41234, "https://myapp.loca.lt", 10));

    let g = LocaltunnelBackend::parse_grant(br#"{"port":70000,"url":"u","max_conn_count":0}"#).unwrap();
    assert_eq!((g.remote_port, g.max_conn), (4464, 1));
    let g = LocaltunnelBackend::parse_grant(br#"{"port":1,"url":"u","max_conn_count":100}"#).unwrap();
    assert_eq!(g.max_conn, 32);
    let g = LocaltunnelBackend::parse_grant(br#"{"port":1,"url":"u"}"#).unwrap();
    assert_eq!(g.max_conn, 10);

    match LocaltunnelBackend::parse_grant(br#"{"url":"u"}"#) {
        Err(BeamsError::TunnelStart(m)) => assert_eq!(m, "localtunnel did not return a port"),
        _ => panic!("expected a missing port"),
    }
    match LocaltunnelBackend::parse_grant(br#"{"port":"1"}"#) {
        Err(BeamsError::TunnelStart(m)) => assert_eq!(m, "localtunnel did not return a port"),
        _ => panic!("expected a missing port"),
    }
    match LocaltunnelBackend::parse_grant(br#"{"port":1}"#) {
        Err(BeamsError::TunnelStart(m)) => assert_eq!(m, "localtunnel did not return a url"),
        _ => panic!("expected a missing url"),
    }
    match LocaltunnelBackend::parse_grant(b"<html>") {
        Err(BeamsError::TunnelStart(m)) => assert!(m.starts_with("invalid localtunnel response: ")),
        _ => panic!("expected an invalid reply"),
    }
}

#[test]
fn grant_from_reply_clamps_the_pool() {
    let reply = LocaltunnelReply { port: Some(5), url: Some("u".to_string()), max_conn_count: Some(7) };
    let g = LocaltunnelBackend::grant_from_reply(&reply).unwrap();
    assert_eq!((g.remote_port, g.max_conn), (5, 7));
}

#[test]
fn render_qr_refuses_data_that_is_too_long() {
    let long = "x".repeat(8000);
    match render_qr(&long) {
        Err(BeamsError::Download(m)) => assert_eq!(m, "failed to render QR code: data too long"),
        _ => panic!("expected an error"),
    }
}

#[test]
fn every_platform_asset() {
    assert_eq!(Tool::Cloudflared.asset("macos", "x86_64").unwrap(), "cloudflared-darwin-amd64.tgz");
    assert_eq!(Tool::Cloudflared.asset("linux", "aarch64").unwrap(), "cloudflared-linux-arm64");
    assert_eq!(Tool::Cloudflared.asset("windows", "x86_64").unwrap(), "cloudflared-windows-amd64.exe");
    assert_eq!(Tool::Bore.asset("macos", "x86_64").unwrap(), "bore-v0.6.0-x86_64-apple-darwin.tar.gz");
    assert_eq!(Tool::Bore.asset("linux", "aarch64").unwrap(), "bore-v0.6.0-aarch64-unknown-linux-musl.tar.gz");
    match Tool::Cloudflared.asset("windows", "aarch64") {
        Err(BeamsError::Download(m)) => assert_eq!(m, "unsupported platform: windows/aarch64"),
        _ => panic!("expected unsupported"),
    }
}

#[test]
fn bin_names_and_entries() {
    assert_eq!(Tool::Cloudflared.bin_name("windows"), "cloudflared.exe");
    assert_eq!(Tool::Cloudflared.bin_name("linux"), "cloudflared");
    assert_eq!(Tool::Bore.bin_name("windows"), "bore.exe");
    assert_eq!(Tool::Bore.bin_name("macos"), "bore");
    assert_eq!(Tool::Bore.archive_entry(), "bore");
    assert_eq!(Tool::Cloudflared.archive_entry(), "cloudflared");
}

#[test]
fn archive_kinds() {
    assert_eq!(archive_kind("bore-v0.6.0-x86_64-pc-windows-msvc.zip"), ArchiveKind::Zip);
    assert_eq!(archive_kind("cloudflared-darwin-arm64.tgz"), ArchiveKind::TarGz);
    assert_eq!(archive_kind("bore-v0.6.0-x86_64-apple-darwin.tar.gz"), ArchiveKind::TarGz);
    assert_eq!(archive_kind("cloudflared-linux-amd64"), ArchiveKind::Raw);
}

#[test]
fn entry_names() {
    assert!(entry_matches(Some("bore"), "bore"));
    assert!(entry_matches(Some("bore.exe"), "bore"));
    assert!(!entry_matches(Some("bore.tar"), "bore"));
    assert!(!entry_matches(None, "bore"));
}

fn zip_with(files: &[(&str, &[u8])]) -> Vec<u8> {
    let mut w = zip::ZipWriter::new(std::io::Cursor::new(Vec::new()));
    let options = zip::write::SimpleFileOptions::default()
        .compression_method(zip::CompressionMethod::Stored);
    for (name, data) in files {
        w.start_file(*name, options).unwrap();
        w.write_all(data).unwrap();
    }
    w.finish().unwrap().into_inner()
}

fn tgz_with(files: &[(&str, &[u8])]) -> Vec<u8> {
    let enc = flate2::write::GzEncoder::new(Vec::new(), flate2::Compression::default());
    let mut b = tar::Builder::new(enc);
    for (name, data) in files {
        let mut header = tar::Header::new_gnu();
        header.set_size(data.len() as u64);
        header.set_mode(0o755);
        header.set_cksum();
        b.append_data(&mut header, name, *data).unwrap();
    }
    b.into_inner().unwrap().finish().unwrap()
}

#[test]
fn zip_extraction_finds_the_executable() {
    let bytes = zip_with(&[("README.md", b"docs"), ("dist/bore.exe", b"MZ-bore")]);
    assert_eq!(extract_from_zip(&bytes, "bore").unwrap(), b"MZ-bore");
    match extract_from_zip(&bytes, "cloudflared") {
        Err(BeamsError::Download(m)) => assert_eq!(m, "cloudflared not found in the downloaded zip"),
        other => panic!("unexpected {other:?}"),
    }
    assert!(matches!(extract_from_zip(b"not a zip", "bore"), Err(BeamsError::Download(_))));
}

#[test]
fn tgz_extraction_finds_the_executable() {
    let bytes = tgz_with(&[("LICENSE", b"MIT"), ("cloudflared", b"ELF-cloudflared")]);
    assert_eq!(extract_from_tgz(&bytes, "cloudflared").unwrap(), b"ELF-cloudflared");
    match extract_from_tgz(&bytes, "bore") {
        Err(BeamsError::Download(m)) => assert_eq!(m, "bore not found in the downloaded archive"),
        other => panic!("unexpected {other:?}"),
    }
    assert!(matches!(extract_from_tgz(b"not gzip", "bore"), Err(BeamsError::Io(_))));
}

#[test]
fn cache_dir_from_what_the_lookup_found() {
    let dir = std::path::PathBuf::from("/tmp/beams-cache");
    assert_eq!(cache_dir_from(Some(dir.clone())).unwrap(), dir);
    match cache_dir_from(None) {
        Err(BeamsError::Download(m)) => assert_eq!(m, "could not locate a cache directory"),
        other => panic!("unexpected {other:?}"),
    }
}

#[test]
fn binary_path_joins_the_tool_name_to_the_directory() {
    let dir = std::path::PathBuf::from("/tmp/beams-cache");
    assert_eq!(binary_path_in(&dir, Tool::Cloudflared, "linux"), dir.join("cloudflared"));
    assert_eq!(binary_path_in(&dir, Tool::Bore, "windows"), dir.join("bore.exe"));
    let path = binary_path_in(&dir, Tool::Cloudflared, "windows");
    assert!(path.starts_with(&dir));
    assert_eq!(path.file_name().unwrap().to_str().unwrap(), "cloudflared.exe");
}

#[test]
fn zip_extraction_takes_the_first_matching_entry() {
    let bytes = zip_with(&[("a/bore", b"first"), ("b/bore.exe", b"second")]);
    assert_eq!(extract_from_zip(&bytes, "bore").unwrap(), b"first");
    let empty = zip_with(&[]);
    match extract_from_zip(&empty, "bore") {
        Err(BeamsError::Download(m)) => assert_eq!(m, "bore not found in the downloaded zip"),
        other => panic!("unexpected {other:?}"),
    }
}

#[test]
fn tgz_extraction_takes_the_first_matching_entry() {
    let bytes = tgz_with(&[("x/bore.exe", b"one"), ("y/bore", b"two")]);
    assert_eq!(extract_from_tgz(&bytes, "bore").unwrap(), b"one");
}

#[test]
fn normalizing_keeps_the_host_and_port() {
    for input in ["3000", " 0080 ", "localhost:8080", "my-host:9000", "http://127.0.0.1:5000/app", "https://h:443"] {
        let url = parse_target(input).unwrap();
        assert_eq!(parse_host_port(&url).ok(), parse_host_port(input).ok(), "{input}");
    }
    assert_eq!(parse_target("3000").unwrap(), "http://localhost:3000");
    assert_eq!(parse_host_port("http://localhost:3000").unwrap(), ("localhost".to_string(), 3000));
}

#[test]
fn cloudflared_wait_takes_the_first_line_with_a_url() {
    let lines = ["INF starting", "INF |  https://calm-owl-3.trycloudflare.com  |", "INF https://x.trycloudflare.com"];
    let mut up = None;
    for line in lines {
        match CloudflareBackend::start_step(&StartEvent::Line(line.to_string())) {
            StartStep::KeepReading => {}
            StartStep::Up(url) => {
                up = Some(url);
                break;
            }
            StartStep::Failed(e) => panic!("unexpected {e:?}"),
        }
    }
    assert_eq!(up.as_deref(), Some("https://calm-owl-3.trycloudflare.com"));
    match CloudflareBackend::start_step(&StartEvent::Ended) {
        StartStep::Failed(BeamsError::TunnelStart(m)) => {
            assert_eq!(m, "cloudflared exited without providing a public URL")
        }
        _ => panic!("expected TunnelStart"),
    }
    assert!(matches!(
        CloudflareBackend::start_step(&StartEvent::TimedOut),
        StartStep::Failed(BeamsError::UrlTimeout)
    ));
}

#[test]
fn bore_wait_reads_the_listening_address() {
    assert!(matches!(
        BoreBackend::start_step(&StartEvent::Line("INFO starting client".to_string())),
        StartStep::KeepReading
    ));
    match BoreBackend::start_step(&StartEvent::Line("listening at bore.pub:4242".to_string())) {
        StartStep::Up(addr) => assert_eq!(addr, "bore.pub:4242"),
        _ => panic!("expected Up"),
    }
    match BoreBackend::start_step(&StartEvent::Ended) {
        StartStep::Failed(BeamsError::TunnelStart(m)) => {
            assert_eq!(m, "bore exited without providing a public address")
        }
        _ => panic!("expected TunnelStart"),
    }
}
