//! The tunnel backends: what each one runs, asks for, and connects to.
//! Opening the tunnel itself (spawning the tool, reading its output, relaying
//! connections) is the job of the program around this library.

use std::path::PathBuf;

use vstd::prelude::*;
use vstd::string::StringExecFns;

use crate::cli::strip_scheme;
use crate::error::{BeamsError, ErrorModel};
use crate::parser::{
    extract_bore_address, extract_public_url, opt_seq, spec_extract_bore_address,
    spec_extract_public_url,
};
use crate::text::{
    all_digits, before_char, chars_of, decimal, digits_value, find_char_from_exec,
    lemma_decimal, lemma_decimal_no_leading_zero, lemma_find_char_from, find_char, push_decimal,
    starts_with, starts_with_exec,
};

verus! {

/// The views of a list of strings.
pub open spec fn seq_views(v: Seq<String>) -> Seq<Seq<char>> {
    v.map_values(|s: String| s@)
}

/// Random-URL HTTPS tunnel via `cloudflared` quick tunnel.
pub struct CloudflareBackend {
    pub binary: PathBuf,
    /// Forwarding target, e.g. "http://localhost:3000".
    pub target: String,
    /// Edge transport to pin: "quic", "http2", or "auto". `None` leaves
    /// cloudflared on its own default (quic, falling back to http2).
    pub protocol: Option<String>,
}

/// The `host:port` of a forwarding target: scheme and path removed.
pub open spec fn spec_host_header(target: Seq<char>) -> Seq<char> {
    before_char(strip_scheme(target), '/')
}

/// The arguments `cloudflared` runs with for `target`: a quick tunnel without
/// auto-update, logging every request as JSON at debug level, sending the
/// local `host:port` as the Host header, and pinning `protocol` when given.
pub open spec fn spec_cloudflared_args(target: Seq<char>, protocol: Option<Seq<char>>) -> Seq<
    Seq<char>,
> {
    let base = seq![
        "tunnel"@,
        "--no-autoupdate"@,
        "--loglevel"@,
        "debug"@,
        "--output"@,
        "json"@,
        "--http-host-header"@,
        spec_host_header(target),
        "--url"@,
        target,
    ];
    match protocol {
        Some(p) => base + seq!["--protocol"@, p],
        None => base,
    }
}

impl CloudflareBackend {
    /// The `host:port` to send as the Host header to the local server.
    pub fn host_header(&self) -> (r: &str)
        ensures
            r@ == spec_host_header(self.target@),
    {
        let target = self.target.as_str();
        let t = chars_of(target);
        let skip = if starts_with_exec(&t, "http://") {
            proof {
                reveal_strlit("http://");
            }
            7
        } else if starts_with_exec(&t, "https://") {
            proof {
                reveal_strlit("https://");
            }
            8
        } else {
            0
        };
        let rest = target.substring_char(skip, t.len());
        let s = chars_of(rest);
        proof {
            assert(s@ =~= strip_scheme(self.target@));
        }
        let end = match find_char_from_exec(&s, '/', 0) {
            Some(k) => k,
            None => s.len(),
        };
        let r = rest.substring_char(0, end);
        proof {
            assert(r@ =~= before_char(s@, '/'));
        }
        r
    }

    /// The arguments to run `cloudflared` with.
    pub fn args(&self) -> (r: Vec<String>)
        ensures
            seq_views(r@) == spec_cloudflared_args(self.target@, opt_seq(self.protocol)),
    {
        let mut args: Vec<String> = Vec::new();
        args.push("tunnel".to_owned());
        args.push("--no-autoupdate".to_owned());
        args.push("--loglevel".to_owned());
        args.push("debug".to_owned());
        args.push("--output".to_owned());
        args.push("json".to_owned());
        args.push("--http-host-header".to_owned());
        args.push(self.host_header().to_owned());
        args.push("--url".to_owned());
        args.push(self.target.as_str().to_owned());
        match &self.protocol {
            Some(p) => {
                args.push("--protocol".to_owned());
                args.push(p.as_str().to_owned());
            },
            None => {},
        }
        proof {
            assert(seq_views(args@) =~= spec_cloudflared_args(
                self.target@,
                opt_seq(self.protocol),
            ));
        }
        args
    }
}

/// Raw TCP tunnel via the `bore` client against the public `bore.pub` server.
pub struct BoreBackend {
    pub binary: PathBuf,
    pub local_port: u16,
}

/// The Host header names the local server as the target spells it: for a
/// target `http://<host><path>` or `https://<host><path>`, with a host
/// holding no `/` and a path that is empty or starts with `/`, the header is
/// the host (with its port, if it has one).
pub proof fn law_host_header_is_the_targets_host(secure: bool, host: Seq<char>, path: Seq<char>)
    requires
        forall|i: int| 0 <= i < host.len() ==> #[trigger] host[i] != '/',
        path.len() == 0 || path[0] == '/',
    ensures
        spec_host_header((if secure { "https://"@ } else { "http://"@ }) + host + path) == host,
{
    reveal_strlit("http://");
    reveal_strlit("https://");
    let scheme = if secure { "https://"@ } else { "http://"@ };
    let t = scheme + host + path;
    let x = host + path;
    assert(t =~= scheme + x);
    if secure {
        assert(t[4] == 's');
        assert(!starts_with(t, "http://"@)) by {
            if starts_with(t, "http://"@) {
                assert(t.subrange(0, 7)[4] == t[4]);
            }
        }
        assert(t.subrange(0, 8) =~= "https://"@);
        assert(t.skip(8) =~= x);
    } else {
        assert(t.subrange(0, 7) =~= "http://"@);
        assert(t.skip(7) =~= x);
    }
    lemma_find_char_from(x, '/', 0);
    assert forall|j: int| 0 <= j < host.len() implies x[j] != '/' by {
        assert(x[j] == host[j]);
    }
    if path.len() > 0 {
        assert(x[host.len() as int] == '/');
        assert(find_char(x, '/') == Some(host.len() as int));
        assert(x.take(host.len() as int) =~= host);
    } else {
        assert(x =~= host);
    }
}

/// The arguments `bore` runs with to expose `port` on `bore.pub`.
pub open spec fn spec_bore_args(port: u16) -> Seq<Seq<char>> {
    seq!["local"@, decimal(port as nat), "--to"@, "bore.pub"@]
}

/// `bore` is told to share exactly the local port: its arguments are
/// `local`, the port written in decimal (digits that read back as the port,
/// without a leading zero), `--to` and `bore.pub`.
pub proof fn law_bore_shares_the_port(port: u16)
    ensures
        spec_bore_args(port).len() == 4,
        spec_bore_args(port)[0] == "local"@,
        spec_bore_args(port)[1].len() > 0,
        all_digits(spec_bore_args(port)[1]),
        digits_value(spec_bore_args(port)[1]) == port,
        port >= 1 ==> spec_bore_args(port)[1][0] != '0',
        spec_bore_args(port)[2] == "--to"@,
        spec_bore_args(port)[3] == "bore.pub"@,
{
    lemma_decimal(port as nat);
    lemma_decimal_no_leading_zero(port as nat);
}

impl BoreBackend {
    /// The arguments to run `bore` with.
    pub fn args(&self) -> (r: Vec<String>)
        ensures
            seq_views(r@) == spec_bore_args(self.local_port),
    {
        let mut port = String::new();
        push_decimal(&mut port, self.local_port as u64);
        let mut args: Vec<String> = Vec::new();
        args.push("local".to_owned());
        args.push(port);
        args.push("--to".to_owned());
        args.push("bore.pub".to_owned());
        proof {
            assert(seq_views(args@) =~= spec_bore_args(self.local_port));
        }
        args
    }
}

/// What the wait for a tunnel's public address hears next from the tool.
pub enum StartEvent {
    /// The tool printed this line.
    Line(String),
    /// The tool's output ended.
    Ended,
    /// The time allowed for the address ran out.
    TimedOut,
}

/// What to do next while waiting for a tunnel's public address.
pub enum StartStep {
    /// Read the tool's next line.
    KeepReading,
    /// The tunnel is up at this address; stop waiting.
    Up(String),
    /// Opening the tunnel failed.
    Failed(BeamsError),
}

/// The step that answers `event` while waiting for an address: the first line
/// in which `found` finds an address brings the tunnel up, other lines are
/// passed over, the output ending first fails with `gone`, and running out of
/// time fails with a timeout.
pub open spec fn start_step_follows(
    r: StartStep,
    event: StartEvent,
    found: spec_fn(Seq<char>) -> Option<Seq<char>>,
    gone: Seq<char>,
) -> bool {
    match event {
        StartEvent::Line(l) => match found(l@) {
            Some(a) => (r matches StartStep::Up(x) && x@ == a),
            None => r is KeepReading,
        },
        StartEvent::Ended => (r matches StartStep::Failed(e) && e@ == ErrorModel::TunnelStart(gone)),
        StartEvent::TimedOut => (r matches StartStep::Failed(e) && e@ is UrlTimeout),
    }
}

impl CloudflareBackend {
    /// The next step while waiting for cloudflared to print its quick-tunnel
    /// URL.
    pub fn start_step(event: &StartEvent) -> (r: StartStep)
        ensures
            start_step_follows(
                r,
                *event,
                |l: Seq<char>| spec_extract_public_url(l),
                "cloudflared exited without providing a public URL"@,
            ),
    {
        match event {
            StartEvent::Line(l) => match extract_public_url(l.as_str()) {
                Some(url) => StartStep::Up(url),
                None => StartStep::KeepReading,
            },
            StartEvent::Ended => StartStep::Failed(
                BeamsError::TunnelStart(
                    "cloudflared exited without providing a public URL".to_owned(),
                ),
            ),
            StartEvent::TimedOut => StartStep::Failed(BeamsError::UrlTimeout),
        }
    }
}

impl BoreBackend {
    /// The next step while waiting for bore to print its public address.
    pub fn start_step(event: &StartEvent) -> (r: StartStep)
        ensures
            start_step_follows(
                r,
                *event,
                |l: Seq<char>| spec_extract_bore_address(l),
                "bore exited without providing a public address"@,
            ),
    {
        match event {
            StartEvent::Line(l) => match extract_bore_address(l.as_str()) {
                Some(addr) => StartStep::Up(addr),
                None => StartStep::KeepReading,
            },
            StartEvent::Ended => StartStep::Failed(
                BeamsError::TunnelStart("bore exited without providing a public address".to_owned()),
            ),
            StartEvent::TimedOut => StartStep::Failed(BeamsError::UrlTimeout),
        }
    }
}

/// The public localtunnel server.
pub const LOCALTUNNEL_SERVER: &'static str = "localtunnel.me";

/// Chosen-subdomain HTTPS tunnel implementing the localtunnel (loca.lt) protocol
/// natively: request a subdomain, then maintain a pool of relay connections that
/// proxy incoming requests to the local server.
pub struct LocaltunnelBackend {
    pub subdomain: String,
    pub local_host: String,
    pub local_port: u16,
}

/// What the localtunnel server answers a subdomain request with, as read from
/// its JSON reply.
pub struct LocaltunnelReply {
    pub port: Option<u64>,
    pub url: Option<String>,
    pub max_conn_count: Option<u64>,
}

/// What a successful subdomain request grants: the relay port on the server,
/// the public URL, and how many relay connections to keep open.
pub struct LocaltunnelGrant {
    pub remote_port: u16,
    pub url: String,
    pub max_conn: usize,
}

/// `port`, `url` and `max_conn_count` as `serde_json` reads them from the
/// server's reply `body`, or the parse error's text when `body` is not JSON.
pub uninterp spec fn localtunnel_reply_fields(body: Seq<u8>) -> Result<
    (Option<u64>, Option<Seq<char>>, Option<u64>),
    Seq<char>,
>;

/// Calls `serde_json::from_slice::<serde_json::Value>` on `body` and reads
/// `port` and `max_conn_count` (`Value::as_u64`) and `url` (`Value::as_str`)
/// out of the value; a parse failure becomes its `Display` text. Claimed: the
/// result is a function of `body` alone, named by [`localtunnel_reply_fields`].
#[verifier::external_body]
fn read_localtunnel_reply(body: &[u8]) -> (r: Result<LocaltunnelReply, String>)
    ensures
        match r {
            Ok(x) => localtunnel_reply_fields(body@) == Ok::<_, Seq<char>>(
                (x.port, opt_seq(x.url), x.max_conn_count),
            ),
            Err(m) => localtunnel_reply_fields(body@) == Err::<
                (Option<u64>, Option<Seq<char>>, Option<u64>),
                Seq<char>,
            >(m@),
        },
{
    match serde_json::from_slice::<serde_json::Value>(body) {
        Ok(v) => Ok(LocaltunnelReply {
            port: v["port"].as_u64(),
            url: v["url"].as_str().map(|u| u.to_string()),
            max_conn_count: v["max_conn_count"].as_u64(),
        }),
        Err(e) => Err(e.to_string()),
    }
}

/// `n` clamped into `lo..=hi`.
pub open spec fn clamp(n: nat, lo: nat, hi: nat) -> nat {
    if n < lo {
        lo
    } else if n > hi {
        hi
    } else {
        n
    }
}

/// What a reply grants: the port (keeping its low 16 bits, as `as u16` does),
/// the URL, and `max_conn_count` (10 when absent) clamped into `1..=32`; a
/// reply without a port or without a URL is an error, the port checked first.
pub open spec fn spec_grant(port: Option<u64>, url: Option<Seq<char>>, max_conn: Option<u64>) -> Result<
    (u16, Seq<char>, nat),
    ErrorModel,
> {
    match port {
        None => Err(ErrorModel::TunnelStart("localtunnel did not return a port"@)),
        Some(p) => match url {
            None => Err(ErrorModel::TunnelStart("localtunnel did not return a url"@)),
            Some(u) => Ok(((p % 65536) as u16, u, clamp(max_conn.unwrap_or(10) as nat, 1, 32))),
        },
    }
}

/// A grant keeps between 1 and 32 relay connections open.
pub proof fn law_grant_relay_pool_bounded(port: Option<u64>, url: Option<Seq<char>>, max_conn: Option<u64>)
    ensures
        spec_grant(port, url, max_conn) matches Ok((_, _, n)) ==> 1 <= n <= 32,
{
}

/// A grant result by its views.
pub open spec fn grant_result(r: Result<LocaltunnelGrant, BeamsError>) -> Result<
    (u16, Seq<char>, nat),
    ErrorModel,
> {
    match r {
        Ok(g) => Ok((g.remote_port, g.url@, g.max_conn as nat)),
        Err(e) => Err(e@),
    }
}

/// The error for a reply that is not JSON.
pub open spec fn invalid_reply(message: Seq<char>) -> ErrorModel {
    ErrorModel::TunnelStart("invalid localtunnel response: "@ + message)
}

/// The `host:port` address of `port` on `host`.
pub open spec fn spec_address(host: Seq<char>, port: u16) -> Seq<char> {
    host + ":"@ + decimal(port as nat)
}

/// An address names its host and port: it is the host, a `:`, and digits
/// (without a leading zero) that read back as the port.
pub proof fn law_address_names_host_and_port(host: Seq<char>, port: u16)
    ensures
        spec_address(host, port).take(host.len() as int) == host,
        spec_address(host, port)[host.len() as int] == ':',
        spec_address(host, port).len() > host.len() + 1,
        all_digits(spec_address(host, port).skip(host.len() + 1 as int)),
        digits_value(spec_address(host, port).skip(host.len() + 1 as int)) == port,
        port >= 1 ==> spec_address(host, port)[host.len() + 1 as int] != '0',
{
    reveal_strlit(":");
    let a = spec_address(host, port);
    let d = decimal(port as nat);
    lemma_decimal(port as nat);
    lemma_decimal_no_leading_zero(port as nat);
    assert(a.take(host.len() as int) =~= host);
    assert(a.skip(host.len() + 1 as int) =~= d);
    assert(a[host.len() + 1 as int] == d[0]);
}

/// A grant carries what the server answered: a port that fits 16 bits is
/// kept, the URL is kept, and the relay pool is the requested size when that
/// is from 1 to 32, 10 when none is requested, and 1 or 32 at the edges.
pub proof fn law_grant_keeps_the_reply(port: u64, url: Seq<char>, max_conn: Option<u64>)
    requires
        port <= 65535,
    ensures
        spec_grant(Some(port), Some(url), max_conn) matches Ok((p, u, n)) && p == port && u == url
            && (match max_conn {
            None => n == 10,
            Some(m) => (1 <= m <= 32 ==> n == m) && (m < 1 ==> n == 1) && (m > 32 ==> n == 32),
        }),
{
}

impl LocaltunnelBackend {
    /// The URL that asks the server for this subdomain.
    pub fn assign_url(&self) -> (r: String)
        ensures
            r@ == "https://"@ + LOCALTUNNEL_SERVER@ + "/"@ + self.subdomain@,
    {
        let mut u = "https://".to_owned();
        u.append(LOCALTUNNEL_SERVER);
        u.append("/");
        u.append(self.subdomain.as_str());
        u
    }

    /// The local `host:port` that relayed connections go to.
    pub fn local_addr(&self) -> (r: String)
        ensures
            r@ == spec_address(self.local_host@, self.local_port),
    {
        let mut a = self.local_host.as_str().to_owned();
        a.append(":");
        push_decimal(&mut a, self.local_port as u64);
        a
    }

    /// The server `host:port` that relay connections are opened to.
    pub fn relay_addr(remote_port: u16) -> (r: String)
        ensures
            r@ == spec_address(LOCALTUNNEL_SERVER@, remote_port),
    {
        let mut a = LOCALTUNNEL_SERVER.to_owned();
        a.append(":");
        push_decimal(&mut a, remote_port as u64);
        a
    }

    /// What the server's reply grants.
    pub fn grant_from_reply(reply: &LocaltunnelReply) -> (r: Result<LocaltunnelGrant, BeamsError>)
        ensures
            grant_result(r) == spec_grant(reply.port, opt_seq(reply.url), reply.max_conn_count),
    {
        let port = match reply.port {
            Some(p) => p,
            None => return Err(
                BeamsError::TunnelStart("localtunnel did not return a port".to_owned()),
            ),
        };
        let url = match &reply.url {
            Some(u) => u.as_str().to_owned(),
            None => return Err(
                BeamsError::TunnelStart("localtunnel did not return a url".to_owned()),
            ),
        };
        let requested = match reply.max_conn_count {
            Some(n) => n,
            None => 10,
        };
        let max_conn: u64 = if requested < 1 {
            1
        } else if requested > 32 {
            32
        } else {
            requested
        };
        let remote_port = port as u16;
        assert(remote_port == (port % 65536) as u16) by (bit_vector)
            requires
                remote_port == port as u16,
        ;
        Ok(LocaltunnelGrant { remote_port, url, max_conn: max_conn as usize })
    }

    /// What the server's reply `body` grants.
    pub fn parse_grant(body: &[u8]) -> (r: Result<LocaltunnelGrant, BeamsError>)
        ensures
            grant_result(r) == match localtunnel_reply_fields(body@) {
                Ok((port, url, max_conn)) => spec_grant(port, url, max_conn),
                Err(m) => Err(invalid_reply(m)),
            },
    {
        match read_localtunnel_reply(body) {
            Ok(reply) => LocaltunnelBackend::grant_from_reply(&reply),
            Err(m) => {
                let mut msg = "invalid localtunnel response: ".to_owned();
                msg.append(m.as_str());
                Err(BeamsError::TunnelStart(msg))
            },
        }
    }
}

} // verus!
