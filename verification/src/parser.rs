//! Reading the log lines that the tunnel tools print.

use vstd::prelude::*;
use vstd::string::StringExecFns;

use crate::text::{
    all_digits, chars_of, digit_prefix_len, digit_prefix_len_exec, ends_with, ends_with_exec,
    find, find_char, find_char_from_exec, find_exec, find_from, find_from_exec, is_whitespace,
    is_ws, lemma_digit_prefix_len, lemma_find_from, occurs_at, skip_word, skip_word_exec, skip_ws,
    skip_ws_exec, starts_with, starts_with_exec, trim, trim_range, lemma_skip_ws_to,
    lemma_skip_word_to, lemma_find_char_from, lemma_digit_prefix_to, lemma_find_after,
    lemma_find_none,
};

verus! {

/// An optional string by its view.
pub open spec fn opt_seq(o: Option<String>) -> Option<Seq<char>> {
    match o {
        Some(s) => Some(s@),
        None => None,
    }
}

/// Where a URL printed in a log line stops: whitespace or a box border `|`.
pub open spec fn is_url_stop(c: char) -> bool {
    is_ws(c) || c == '|'
}

/// The first index at or after `i` where a URL stops (the length if none).
pub open spec fn url_end(s: Seq<char>, i: int) -> int
    decreases s.len() - i,
{
    if 0 <= i < s.len() && !is_url_stop(s[i]) {
        url_end(s, i + 1)
    } else {
        i
    }
}

/// From index `i` on, the first quick-tunnel URL in a log line: the text from
/// an `https://` up to the next whitespace or `|`, taking the first such text
/// that ends in `.trycloudflare.com`.
pub open spec fn public_url_from(line: Seq<char>, i: int) -> Option<Seq<char>>
    decreases line.len() + 1 - i,
{
    match find_from(line, "https://"@, i) {
        None => None,
        Some(start) => {
            let url = url_at(line, start);
            if ends_with(url, ".trycloudflare.com"@) {
                Some(url)
            } else {
                proof {
                    lemma_find_from(line, "https://"@, i);
                }
                public_url_from(line, start + 1)
            }
        },
    }
}

/// The quick-tunnel URL in a cloudflared log line: the first text that runs
/// from an `https://` to the next whitespace or `|` and ends in
/// `.trycloudflare.com`; `None` when the line holds no such URL.
pub open spec fn spec_extract_public_url(line: Seq<char>) -> Option<Seq<char>> {
    public_url_from(line, 0)
}

fn url_end_exec(s: &Vec<char>, i: usize) -> (r: usize)
    requires
        i <= s.len(),
    ensures
        r == url_end(s@, i as int),
        i <= r <= s.len(),
{
    let mut k = i;
    while k < s.len() && !(is_whitespace(s[k]) || s[k] == '|')
        invariant
            i <= k <= s.len(),
            url_end(s@, i as int) == url_end(s@, k as int),
        decreases s.len() - k,
    {
        k = k + 1;
    }
    k
}

/// Pull a `https://<sub>.trycloudflare.com` URL out of a cloudflared log line.
/// Returns `None` if the line contains no such URL.
pub fn extract_public_url(line: &str) -> (r: Option<String>)
    ensures
        opt_seq(r) == spec_extract_public_url(line@),
{
    let s = chars_of(line);
    let pat = chars_of("https://");
    proof {
        reveal_strlit("https://");
    }
    let mut i: usize = 0;
    while i <= s.len()
        invariant
            i <= s.len() + 1,
            pat.len() == 8,
            s@ == line@,
            pat@ == "https://"@,
            spec_extract_public_url(line@) == public_url_from(line@, i as int),
        decreases s.len() + 1 - i,
    {
        let start = match find_from_exec(&s, &pat, i) {
            Some(k) => k,
            None => return None,
        };
        let end = url_end_exec(&s, start);
        let url = line.substring_char(start, end);
        let u = chars_of(url);
        if ends_with_exec(&u, ".trycloudflare.com") {
            return Some(url.to_owned());
        }
        proof {
            lemma_find_from(line@, "https://"@, i as int);
        }
        i = start + 1;
    }
    proof {
        lemma_find_from(line@, "https://"@, i as int);
        assert(find_from(line@, "https://"@, i as int) is None);
    }
    None
}

proof fn lemma_url_end(s: Seq<char>, i: int)
    requires
        0 <= i <= s.len(),
    ensures
        i <= url_end(s, i) <= s.len(),
        url_end(s, i) < s.len() ==> is_url_stop(s[url_end(s, i)]),
        forall|j: int| i <= j < url_end(s, i) ==> !is_url_stop(#[trigger] s[j]),
    decreases s.len() - i,
{
    if i < s.len() && !is_url_stop(s[i]) {
        lemma_url_end(s, i + 1);
    }
}

/// An extracted quick-tunnel URL is a piece of the log line that starts with
/// `https://`, ends with `.trycloudflare.com`, and holds no whitespace and no
/// `|`.
pub proof fn law_public_url_shape(line: Seq<char>)
    ensures
        spec_extract_public_url(line) matches Some(u) ==> {
            &&& starts_with(u, "https://"@)
            &&& ends_with(u, ".trycloudflare.com"@)
            &&& forall|j: int| 0 <= j < u.len() ==> !is_url_stop(#[trigger] u[j])
            &&& exists|i: int| occurs_at(line, u, i)
        },
{
    lemma_public_url_from(line, 0);
}

proof fn lemma_public_url_from(line: Seq<char>, i: int)
    requires
        0 <= i,
    ensures
        public_url_from(line, i) matches Some(u) ==> {
            &&& starts_with(u, "https://"@)
            &&& ends_with(u, ".trycloudflare.com"@)
            &&& forall|j: int| 0 <= j < u.len() ==> !is_url_stop(#[trigger] u[j])
            &&& exists|k: int| occurs_at(line, u, k)
        },
    decreases line.len() + 1 - i,
{
    reveal_strlit("https://");
    lemma_find_from(line, "https://"@, i);
    if let Some(start) = find_from(line, "https://"@, i) {
        lemma_url_end(line, start);
        let e = url_end(line, start);
        let u = line.subrange(start, e);
        if ends_with(u, ".trycloudflare.com"@) {
            assert(line.subrange(start, start + 8) == "https://"@);
            assert forall|j: int| 0 <= j < 8 implies line[start + j] == "https://"@[j] by {
                assert(line.subrange(start, start + 8)[j] == line[start + j]);
            }
            if e < start + 8 {
                assert(line[e] == "https://"@[e - start]);
            }
            assert(u.subrange(0, 8) =~= "https://"@);
            assert forall|j: int| 0 <= j < u.len() implies !is_url_stop(#[trigger] u[j]) by {
                assert(u[j] == line[start + j]);
            }
            assert(occurs_at(line, u, start));
        } else {
            lemma_public_url_from(line, start + 1);
        }
    }
}

/// The URL-like text that starts at index `k` of a log line: up to the next
/// whitespace or `|`.
pub open spec fn url_at(line: Seq<char>, k: int) -> Seq<char> {
    line.subrange(k, url_end(line, k))
}

/// At index `k` of a log line starts a quick-tunnel URL: an `https://` whose
/// text ends in `.trycloudflare.com`.
pub open spec fn quick_tunnel_url_at(line: Seq<char>, k: int) -> bool {
    occurs_at(line, "https://"@, k) && ends_with(url_at(line, k), ".trycloudflare.com"@)
}

/// [`extract_public_url`] finds nothing only in a line that holds no
/// quick-tunnel URL, and otherwise gives the first one.
pub proof fn law_public_url_is_the_first_one(line: Seq<char>)
    ensures
        spec_extract_public_url(line) is None <==> forall|k: int|
            0 <= k ==> !#[trigger] quick_tunnel_url_at(line, k),
        spec_extract_public_url(line) matches Some(u) ==> exists|k: int|
            {
                &&& #[trigger] quick_tunnel_url_at(line, k)
                &&& u == url_at(line, k)
                &&& forall|j: int| 0 <= j < k ==> !quick_tunnel_url_at(line, j)
            },
{
    lemma_public_url_first(line, 0);
}

proof fn lemma_public_url_first(line: Seq<char>, i: int)
    requires
        0 <= i,
    ensures
        public_url_from(line, i) is None <==> forall|k: int|
            i <= k ==> !#[trigger] quick_tunnel_url_at(line, k),
        public_url_from(line, i) matches Some(u) ==> exists|k: int|
            {
                &&& #[trigger] quick_tunnel_url_at(line, k)
                &&& i <= k
                &&& u == url_at(line, k)
                &&& forall|j: int| i <= j < k ==> !quick_tunnel_url_at(line, j)
            },
    decreases line.len() + 1 - i,
{
    lemma_find_from(line, "https://"@, i);
    match find_from(line, "https://"@, i) {
        None => {
            assert forall|k: int| i <= k implies !#[trigger] quick_tunnel_url_at(line, k) by {}
        },
        Some(start) => {
            if ends_with(url_at(line, start), ".trycloudflare.com"@) {
                assert(quick_tunnel_url_at(line, start));
                assert forall|j: int| i <= j < start implies !quick_tunnel_url_at(line, j) by {}
            } else {
                lemma_public_url_first(line, start + 1);
                assert(!quick_tunnel_url_at(line, start));
                assert forall|j: int| i <= j < start + 1 implies !quick_tunnel_url_at(line, j) by {}
                if public_url_from(line, i) is None {
                    assert forall|k: int| i <= k implies !#[trigger] quick_tunnel_url_at(line, k) by {
                        if k > start {
                        }
                    }
                } else {
                    let u = public_url_from(line, i)->0;
                    let k = choose|k: int|
                        {
                            &&& #[trigger] quick_tunnel_url_at(line, k)
                            &&& start + 1 <= k
                            &&& u == url_at(line, k)
                            &&& forall|j: int| start + 1 <= j < k ==> !quick_tunnel_url_at(line, j)
                        };
                    assert(forall|j: int| i <= j < k ==> !quick_tunnel_url_at(line, j));
                }
            }
        },
    }
}

/// The digits right after the first occurrence of `marker`, when there is at
/// least one.
pub open spec fn port_after(line: Seq<char>, marker: Seq<char>) -> Option<Seq<char>> {
    match find(line, marker) {
        None => None,
        Some(i) => {
            let from = i + marker.len();
            let to = digit_prefix_len(line, from);
            if to > from {
                Some(line.subrange(from, to))
            } else {
                None
            }
        },
    }
}

/// The public bore address in a bore log line: `bore.pub:` followed by the
/// port that follows `bore.pub:`, or else the one that follows `remote_port=`.
pub open spec fn spec_extract_bore_address(line: Seq<char>) -> Option<Seq<char>> {
    match port_after(line, "bore.pub:"@) {
        Some(p) => Some("bore.pub:"@ + p),
        None => match port_after(line, "remote_port="@) {
            Some(p) => Some("bore.pub:"@ + p),
            None => None,
        },
    }
}

/// An extracted bore address is `bore.pub:` followed by at least one digit
/// and nothing else.
pub proof fn law_bore_address_shape(line: Seq<char>)
    ensures
        spec_extract_bore_address(line) matches Some(a) ==> {
            &&& a.len() > 9
            &&& a.take(9) == "bore.pub:"@
            &&& all_digits(a.skip(9))
        },
{
    reveal_strlit("bore.pub:");
    lemma_find_from(line, "bore.pub:"@, 0);
    lemma_find_from(line, "remote_port="@, 0);
    if let Some(i) = find(line, "bore.pub:"@) {
        lemma_digit_prefix_len(line, i + "bore.pub:"@.len());
    }
    if let Some(i) = find(line, "remote_port="@) {
        lemma_digit_prefix_len(line, i + "remote_port="@.len());
    }
    if let Some(a) = spec_extract_bore_address(line) {
        let p = a.skip(9);
        assert(a.take(9) =~= "bore.pub:"@);
        assert(all_digits(p));
    }
}

proof fn lemma_port_after_at(pre: Seq<char>, marker: Seq<char>, digits: Seq<char>, rest: Seq<char>)
    requires
        digits.len() > 0,
        all_digits(digits),
        rest.len() == 0 || !crate::text::is_digit(rest[0]),
        forall|j: int|
            0 <= j < pre.len() ==> !occurs_at(pre + marker + digits + rest, marker, j),
    ensures
        port_after(pre + marker + digits + rest, marker) == Some(digits),
{
    let line = pre + marker + digits + rest;
    assert(line =~= pre + marker + (digits + rest));
    lemma_find_after(pre, marker, digits + rest);
    let from = (pre.len() + marker.len()) as int;
    let to = from + digits.len();
    assert forall|k: int| from <= k < to implies crate::text::is_digit(#[trigger] line[k]) by {
        assert(line[k] == digits[k - from]);
    }
    if to < line.len() {
        assert(line[to] == rest[0]);
    }
    lemma_digit_prefix_to(line, from, to);
    assert(line.subrange(from, to) =~= digits);
}

/// A bore log line that names its public address is read back as that
/// address: when the first `bore.pub:` in the line is followed by the digits
/// `d` (and then no further digit), the address is `bore.pub:d`.
pub proof fn law_bore_address_reads_the_listening_port(
    pre: Seq<char>,
    digits: Seq<char>,
    rest: Seq<char>,
)
    requires
        digits.len() > 0,
        all_digits(digits),
        rest.len() == 0 || !crate::text::is_digit(rest[0]),
        forall|j: int|
            0 <= j < pre.len() ==> !occurs_at(pre + "bore.pub:"@ + digits + rest, "bore.pub:"@, j),
    ensures
        spec_extract_bore_address(pre + "bore.pub:"@ + digits + rest) == Some("bore.pub:"@ + digits),
{
    lemma_port_after_at(pre, "bore.pub:"@, digits, rest);
}

/// Without a `bore.pub:` address, the port of the first `remote_port=` field
/// is read: followed by the digits `d` (and then no further digit), it gives
/// `bore.pub:d`.
pub proof fn law_bore_address_falls_back_to_remote_port(
    pre: Seq<char>,
    digits: Seq<char>,
    rest: Seq<char>,
)
    requires
        digits.len() > 0,
        all_digits(digits),
        rest.len() == 0 || !crate::text::is_digit(rest[0]),
        forall|j: int|
            0 <= j < pre.len() ==> !occurs_at(
                pre + "remote_port="@ + digits + rest,
                "remote_port="@,
                j,
            ),
        forall|j: int|
            0 <= j ==> !occurs_at(pre + "remote_port="@ + digits + rest, "bore.pub:"@, j),
    ensures
        spec_extract_bore_address(pre + "remote_port="@ + digits + rest) == Some(
            "bore.pub:"@ + digits,
        ),
{
    lemma_find_none(pre + "remote_port="@ + digits + rest, "bore.pub:"@);
    lemma_port_after_at(pre, "remote_port="@, digits, rest);
}

fn port_after_exec(line: &str, s: &Vec<char>, marker: &str) -> (r: Option<String>)
    requires
        s@ == line@,
    ensures
        opt_seq(r) == port_after(line@, marker@),
{
    match find_exec(s, marker) {
        None => None,
        Some(i) => {
            let m = chars_of(marker);
            let from = i + m.len();
            let to = digit_prefix_len_exec(s, from);
            if to > from {
                Some(line.substring_char(from, to).to_owned())
            } else {
                None
            }
        },
    }
}

/// Pull the public bore address (`bore.pub:<port>`) out of a bore log line.
/// Handles both the "listening at bore.pub:PORT" line and a "remote_port=PORT"
/// field, returning a normalized `bore.pub:<port>` string.
pub fn extract_bore_address(line: &str) -> (r: Option<String>)
    ensures
        opt_seq(r) == spec_extract_bore_address(line@),
{
    let s = chars_of(line);
    let port = match port_after_exec(line, &s, "bore.pub:") {
        Some(p) => Some(p),
        None => port_after_exec(line, &s, "remote_port="),
    };
    match port {
        Some(p) => {
            let mut out = "bore.pub:".to_owned();
            out.append(p.as_str());
            Some(out)
        },
        None => None,
    }
}

/// The parts of a cloudflared JSON debug line that tell whether it logs a
/// request: whether it has a `path` key, its `headers.User-Agent[0]` string,
/// and its `message` string.
pub struct RequestLogFields {
    pub has_path: bool,
    pub user_agent: Option<String>,
    pub message: Option<String>,
}

/// What `serde_json` reads from `line` when it parses as a JSON value: whether
/// it has a `path` key, its `headers.User-Agent[0]` string and its `message`
/// string; `None` when `line` is not JSON.
pub uninterp spec fn json_log_fields(line: Seq<char>) -> Option<
    (bool, Option<Seq<char>>, Option<Seq<char>>),
>;

/// Calls `serde_json::from_str::<serde_json::Value>` on `line` and reads the
/// three fields of [`RequestLogFields`] out of the value (`Value::get`,
/// indexing, `Value::as_str`). Claimed: the result is a function of `line`
/// alone, named by [`json_log_fields`].
#[verifier::external_body]
fn read_log_json(line: &str) -> (r: Option<RequestLogFields>)
    ensures
        match r {
            None => json_log_fields(line@) is None,
            Some(f) => json_log_fields(line@) == Some(
                (f.has_path, opt_seq(f.user_agent), opt_seq(f.message)),
            ),
        },
{
    let v: serde_json::Value = serde_json::from_str(line).ok()?;
    Some(RequestLogFields {
        has_path: v.get("path").is_some(),
        user_agent: v["headers"]["User-Agent"][0].as_str().map(|a| a.to_string()),
        message: v["message"].as_str().map(|m| m.to_string()),
    })
}

/// `"METHOD /path?query"` for a logged request: the first two words of the
/// message are the method and the URL, and the path is the URL from the
/// first `/` after its scheme (`/` when there is none). Lines without a
/// `path` key, without such a message, or sent by beams' own probes (user
/// agent starting with `beams/`) give `None`.
pub open spec fn spec_request_line(
    has_path: bool,
    agent: Option<Seq<char>>,
    message: Option<Seq<char>>,
) -> Option<Seq<char>> {
    if !has_path {
        None
    } else if starts_with(agent.unwrap_or(Seq::empty()), "beams/"@) {
        None
    } else {
        match message {
            None => None,
            Some(m) => {
                let a = skip_ws(m, 0);
                let b = skip_word(m, a);
                let c = skip_ws(m, b);
                let d = skip_word(m, c);
                if a >= m.len() || c >= m.len() {
                    None
                } else {
                    let method = m.subrange(a, b);
                    let url = m.subrange(c, d);
                    let after = match find(url, "://"@) {
                        Some(i) => url.skip(i + "://"@.len()),
                        None => url,
                    };
                    let path = match find_char(after, '/') {
                        Some(i) => after.skip(i),
                        None => "/"@,
                    };
                    Some(method + " "@ + path)
                }
            },
        }
    }
}

/// The reported path is everything in the URL from the first `/` after its
/// scheme: for a method `m` and a path `p` that starts with `/`, neither
/// holding whitespace, and a host `h` holding neither whitespace nor `/`, a
/// logged request (a `path` key, an agent other than beams' probes) whose
/// message is `m https://h<p> HTTP/1.1` is reported as `m <p>`.
pub proof fn law_request_line_reports_method_and_path(
    method: Seq<char>,
    host: Seq<char>,
    path: Seq<char>,
    agent: Option<Seq<char>>,
)
    requires
        method.len() > 0,
        forall|i: int| 0 <= i < method.len() ==> !is_ws(#[trigger] method[i]),
        forall|i: int| 0 <= i < host.len() ==> !is_ws(#[trigger] host[i]) && host[i] != '/',
        path.len() > 0,
        path[0] == '/',
        forall|i: int| 0 <= i < path.len() ==> !is_ws(#[trigger] path[i]),
        !(agent matches Some(a) && starts_with(a, "beams/"@)),
    ensures
        spec_request_line(true, agent, Some(method + " https://"@ + host + path + " HTTP/1.1"@))
            == Some(method + " "@ + path),
{
    reveal_strlit(" https://");
    reveal_strlit(" HTTP/1.1");
    reveal_strlit("https://");
    reveal_strlit("://");
    reveal_strlit(" ");
    reveal_strlit("beams/");
    let url = "https://"@ + host + path;
    let m = method + " https://"@ + host + path + " HTTP/1.1"@;
    let lm = method.len() as int;
    let lu = url.len() as int;
    assert(m =~= method + " "@ + url + " HTTP/1.1"@);
    assert(!starts_with(agent.unwrap_or(Seq::empty()), "beams/"@));
    // the method is the first word
    assert(!is_ws(m[0]));
    lemma_skip_ws_to(m, 0, 0);
    assert forall|k: int| 0 <= k < lm implies !is_ws(#[trigger] m[k]) by {
        assert(m[k] == method[k]);
    }
    assert(m[lm] == ' ');
    lemma_skip_word_to(m, 0, lm);
    // then one space, then the URL
    assert(m[lm + 1] == 'h');
    lemma_skip_ws_to(m, lm, lm + 1);
    assert forall|k: int| 0 <= k < lu implies !is_ws(#[trigger] url[k]) by {
        if k >= 8 && k < 8 + host.len() {
            assert(url[k] == host[k - 8]);
        } else if k >= 8 + host.len() {
            assert(url[k] == path[k - 8 - host.len()]);
        }
    }
    assert forall|k: int| lm + 1 <= k < lm + 1 + lu implies !is_ws(#[trigger] m[k]) by {
        assert(m[k] == url[k - lm - 1]);
    }
    assert(m[lm + 1 + lu] == ' ');
    lemma_skip_word_to(m, lm + 1, lm + 1 + lu);
    assert(m.subrange(0, lm) =~= method);
    assert(m.subrange(lm + 1, lm + 1 + lu) =~= url);
    // the scheme separator is found right after `https`
    lemma_find_from(url, "://"@, 0);
    assert(url.subrange(5, 8) =~= "://"@);
    assert(occurs_at(url, "://"@, 5));
    assert forall|j: int| 0 <= j < 5 implies !occurs_at(url, "://"@, j) by {
        assert(url.subrange(j, j + 3)[0] == url[j]);
    }
    assert(find(url, "://"@) == Some(5int));
    let after = url.skip(8);
    assert(after =~= host + path);
    // the path starts at the first `/` after the host
    lemma_find_char_from(after, '/', 0);
    assert forall|j: int| 0 <= j < host.len() implies after[j] != '/' by {
        assert(after[j] == host[j]);
    }
    assert(after[host.len() as int] == '/');
    assert(find_char(after, '/') == Some(host.len() as int));
    assert(after.skip(host.len() as int) =~= path);
}

/// The request a cloudflared debug line logs, from the fields read out of it.
pub fn request_line_from_fields(fields: &RequestLogFields) -> (r: Option<String>)
    ensures
        opt_seq(r) == spec_request_line(
            fields.has_path,
            opt_seq(fields.user_agent),
            opt_seq(fields.message),
        ),
{
    if !fields.has_path {
        return None;
    }
    let beams_probe = match &fields.user_agent {
        Some(agent) => {
            let a = chars_of(agent.as_str());
            starts_with_exec(&a, "beams/")
        },
        None => {
            let a: Vec<char> = Vec::new();
            proof {
                assert(a@ =~= Seq::<char>::empty());
            }
            starts_with_exec(&a, "beams/")
        },
    };
    if beams_probe {
        return None;
    }
    let msg = match &fields.message {
        Some(m) => m.as_str(),
        None => return None,
    };
    let m = chars_of(msg);
    let a = skip_ws_exec(&m, 0);
    let b = skip_word_exec(&m, a);
    let c = skip_ws_exec(&m, b);
    let d = skip_word_exec(&m, c);
    if a >= m.len() || c >= m.len() {
        return None;
    }
    let method = msg.substring_char(a, b);
    let url = msg.substring_char(c, d);
    let u = chars_of(url);
    let after = match find_exec(&u, "://") {
        Some(i) => {
            let scheme_sep = chars_of("://");
            url.substring_char(i + scheme_sep.len(), u.len())
        },
        None => url,
    };
    let af = chars_of(after);
    let mut out = method.to_owned();
    out.append(" ");
    match find_char_from_exec(&af, '/', 0) {
        Some(i) => out.append(after.substring_char(i, af.len())),
        None => out.append("/"),
    }
    Some(out)
}

/// `"GET /path?query"` for a cloudflared JSON debug line that logs an incoming
/// request, `None` for anything else. Requests beams makes itself (readiness and
/// liveness probes, tagged by user agent) are skipped. Response lines carry no
/// request id to pair them with, so statuses are not reported.
pub fn request_line(line: &str) -> (r: Option<String>)
    ensures
        opt_seq(r) == match json_log_fields(trim(line@)) {
            None => None,
            Some((has_path, agent, message)) => spec_request_line(has_path, agent, message),
        },
{
    let all = chars_of(line);
    let (a, b) = trim_range(&all);
    match read_log_json(line.substring_char(a, b)) {
        None => None,
        Some(fields) => request_line_from_fields(&fields),
    }
}

} // verus!
