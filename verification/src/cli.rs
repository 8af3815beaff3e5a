//! Turning what the user typed into a forwarding target.

use vstd::prelude::*;
use vstd::string::StringExecFns;

use crate::error::{BeamsError, ErrorModel};
use crate::text::{
    all_digits, all_digits_exec, before_char, chars_of, decimal, digits_value, digits_value_upto,
    find_char_from_exec, parse_u16, parse_u16_exec, push_decimal, rfind_char, rfind_char_exec,
    starts_with, starts_with_exec, trim, trim_range, lemma_trim_ends, lemma_trim_fixed,
    lemma_decimal, is_ws, lemma_find_char_from, lemma_rfind_char_before, find_char,
    is_digit, lemma_trim_padded,
};

verus! {

/// What [`parse_target`] makes of the user's input: the URL to forward to, or
/// the error naming the (trimmed) input.
pub open spec fn spec_parse_target(input: Seq<char>) -> Result<Seq<char>, ErrorModel> {
    let t = trim(input);
    if t.len() == 0 {
        Err(ErrorModel::InvalidTarget(t))
    } else if starts_with(t, "http://"@) || starts_with(t, "https://"@) {
        Ok(t)
    } else if all_digits(t) {
        if 1 <= digits_value(t) <= 65535 {
            Ok("http://localhost:"@ + decimal(digits_value(t)))
        } else {
            Err(ErrorModel::InvalidTarget(t))
        }
    } else {
        match rfind_char(t, ':') {
            Some(k) => if 0 < k && k + 1 < t.len() && all_digits(t.skip(k + 1)) {
                Ok("http://"@ + t)
            } else {
                Err(ErrorModel::InvalidTarget(t))
            },
            None => Err(ErrorModel::InvalidTarget(t)),
        }
    }
}

/// A `Result<String, BeamsError>` by its views.
pub open spec fn string_result(r: Result<String, BeamsError>) -> Result<Seq<char>, ErrorModel> {
    match r {
        Ok(s) => Ok(s@),
        Err(e) => Err(e@),
    }
}

/// Normalize user input into a URL `cloudflared` can forward to.
///
/// - `"3000"`              -> `"http://localhost:3000"`
/// - `"http://..."`        -> unchanged
/// - `"localhost:3000"`    -> `"http://localhost:3000"`
pub fn parse_target(input: &str) -> (r: Result<String, BeamsError>)
    ensures
        string_result(r) == spec_parse_target(input@),
{
    let all = chars_of(input);
    let (a, b) = trim_range(&all);
    let t_str = input.substring_char(a, b);
    let t = chars_of(t_str);
    if t.len() == 0 {
        return Err(BeamsError::InvalidTarget(t_str.to_owned()));
    }
    if starts_with_exec(&t, "http://") || starts_with_exec(&t, "https://") {
        return Ok(t_str.to_owned());
    }
    if all_digits_exec(&t, 0, t.len()) {
        proof {
            assert(t@.subrange(0, t@.len() as int) =~= t@);
        }
        match digits_value_upto(&t, 0, t.len(), 65535) {
            Some(v) => {
                if v >= 1 {
                    let mut out = "http://localhost:".to_owned();
                    push_decimal(&mut out, v);
                    return Ok(out);
                }
            },
            None => {},
        }
        return Err(BeamsError::InvalidTarget(t_str.to_owned()));
    }
    proof {
        assert(t@.subrange(0, t@.len() as int) =~= t@);
    }
    match rfind_char_exec(&t, ':') {
        Some(k) => {
            if k > 0 && k + 1 < t.len() && all_digits_exec(&t, k + 1, t.len()) {
                let mut out = "http://".to_owned();
                out.append(t_str);
                return Ok(out);
            }
        },
        None => {},
    }
    Err(BeamsError::InvalidTarget(t_str.to_owned()))
}

/// A target that [`parse_target`] accepted is accepted again unchanged:
/// normalizing twice is normalizing once.
pub proof fn law_parse_target_idempotent(input: Seq<char>)
    ensures
        spec_parse_target(input) matches Ok(u) ==> spec_parse_target(u) == Ok::<
            Seq<char>,
            ErrorModel,
        >(u),
{
    let t = trim(input);
    lemma_trim_ends(input);
    reveal_strlit("http://");
    reveal_strlit("https://");
    reveal_strlit("http://localhost:");
    if let Ok(u) = spec_parse_target(input) {
        if starts_with(t, "http://"@) || starts_with(t, "https://"@) {
            lemma_trim_fixed(t);
        } else if all_digits(t) {
            let d = decimal(digits_value(t));
            lemma_decimal(digits_value(t));
            assert(u == "http://localhost:"@ + d);
            assert(u[0] == 'h');
            assert(u.last() == d.last());
            assert(is_ws(d.last()) == false) by {
                assert(all_digits(d));
                assert(d.last() == d[d.len() - 1]);
            }
            lemma_trim_fixed(u);
            assert(u.subrange(0, 7) =~= "http://"@);
            assert(starts_with(u, "http://"@));
        } else {
            assert(u == "http://"@ + t);
            assert(u[0] == 'h');
            assert(u.last() == t.last());
            lemma_trim_fixed(u);
            assert(u.subrange(0, 7) =~= "http://"@);
            assert(starts_with(u, "http://"@));
        }
    }
}

/// `s` with a leading `http://` or `https://` removed.
pub open spec fn strip_scheme(s: Seq<char>) -> Seq<char> {
    if starts_with(s, "http://"@) {
        s.skip("http://"@.len() as int)
    } else if starts_with(s, "https://"@) {
        s.skip("https://"@.len() as int)
    } else {
        s
    }
}

/// What [`parse_host_port`] makes of the user's input.
pub open spec fn spec_parse_host_port(input: Seq<char>) -> Result<(Seq<char>, u16), ErrorModel> {
    let bad = ErrorModel::InvalidTarget(input);
    let a = before_char(strip_scheme(trim(input)), '/');
    if a.len() == 0 {
        Err(bad)
    } else {
        match rfind_char(a, ':') {
            Some(k) => match parse_u16(a.skip(k + 1)) {
                Some(p) => if k == 0 || p == 0 {
                    Err(bad)
                } else {
                    Ok((a.take(k), p))
                },
                None => Err(bad),
            },
            None => match parse_u16(a) {
                Some(p) => if p == 0 {
                    Err(bad)
                } else {
                    Ok(("localhost"@, p))
                },
                None => Err(bad),
            },
        }
    }
}

/// Extract `(host, port)` from a port / `host:port` / URL input.
/// Used by the TCP (bore) and subdomain (localtunnel) backends, which need a
/// local host and port rather than a forwarding URL.
pub fn parse_host_port(input: &str) -> (r: Result<(String, u16), BeamsError>)
    ensures
        match r {
            Ok((h, p)) => spec_parse_host_port(input@) == Ok::<(Seq<char>, u16), ErrorModel>(
                (h@, p),
            ),
            Err(e) => spec_parse_host_port(input@) == Err::<(Seq<char>, u16), ErrorModel>(e@),
        },
{
    let all = chars_of(input);
    let (a, b) = trim_range(&all);
    let t_str = input.substring_char(a, b);
    let t = chars_of(t_str);
    let skip = if starts_with_exec(&t, "http://") {
        proof {
            reveal_strlit("http://");
        }
        7
    } else if starts_with_exec(&t, "https://") {
        proof {
            reveal_strlit("https://");
        }
        8
    } else {
        0
    };
    let s_str = t_str.substring_char(skip, t.len());
    let s = chars_of(s_str);
    proof {
        assert(s@ =~= strip_scheme(trim(input@)));
    }
    let end = match find_char_from_exec(&s, '/', 0) {
        Some(k) => k,
        None => s.len(),
    };
    let auth_str = s_str.substring_char(0, end);
    let auth = chars_of(auth_str);
    proof {
        assert(auth@ =~= before_char(s@, '/'));
    }
    if auth.len() == 0 {
        return Err(BeamsError::InvalidTarget(input.to_owned()));
    }
    match rfind_char_exec(&auth, ':') {
        Some(k) => {
            proof {
                assert(auth@.subrange(k + 1, auth@.len() as int) =~= auth@.skip(k + 1));
            }
            match parse_u16_exec(&auth, k + 1, auth.len()) {
                Some(p) => {
                    if k == 0 || p == 0 {
                        return Err(BeamsError::InvalidTarget(input.to_owned()));
                    }
                    let host = auth_str.substring_char(0, k).to_owned();
                    Ok((host, p))
                },
                None => Err(BeamsError::InvalidTarget(input.to_owned())),
            }
        },
        None => {
            proof {
                assert(auth@.subrange(0, auth@.len() as int) =~= auth@);
            }
            match parse_u16_exec(&auth, 0, auth.len()) {
                Some(p) => {
                    if p == 0 {
                        return Err(BeamsError::InvalidTarget(input.to_owned()));
                    }
                    Ok(("localhost".to_owned(), p))
                },
                None => Err(BeamsError::InvalidTarget(input.to_owned())),
            }
        },
    }
}


proof fn lemma_no_scheme_on_digits(d: Seq<char>)
    requires
        d.len() > 0,
        all_digits(d),
    ensures
        !starts_with(d, "http://"@),
        !starts_with(d, "https://"@),
        strip_scheme(d) == d,
{
    reveal_strlit("http://");
    reveal_strlit("https://");
    assert(is_digit(d[0]));
    if starts_with(d, "http://"@) {
        assert(d.subrange(0, 7)[0] == d[0]);
    }
    if starts_with(d, "https://"@) {
        assert(d.subrange(0, 8)[0] == d[0]);
    }
}

proof fn lemma_digits_host_port(d: Seq<char>, p: u16)
    requires
        d.len() > 0,
        all_digits(d),
        digits_value(d) == p,
    ensures
        before_char(d, '/') == d,
        rfind_char(d, ':') is None,
        parse_u16(d) == Some(p),
{
    assert(is_digit(d[0]));
    lemma_find_char_from(d, '/', 0);
    if let Some(k) = find_char(d, '/') {
        assert(is_digit(d[k]));
    }
    lemma_rfind_char_before(d, ':', d.len() as int);
    if let Some(k) = rfind_char(d, ':') {
        assert(is_digit(d[k]));
    }
}

/// A port and its forwarding URL name the same local server: for every port
/// from 1 to 65535 written in decimal, [`parse_target`] gives
/// `http://localhost:<port>`, and [`parse_host_port`] reads
/// `("localhost", port)` from the port and from that URL alike.
pub proof fn law_port_and_url_agree(p: u16)
    requires
        p >= 1,
    ensures
        spec_parse_target(decimal(p as nat)) == Ok::<Seq<char>, ErrorModel>(
            "http://localhost:"@ + decimal(p as nat),
        ),
        spec_parse_host_port(decimal(p as nat)) == Ok::<(Seq<char>, u16), ErrorModel>(
            ("localhost"@, p),
        ),
        spec_parse_host_port("http://localhost:"@ + decimal(p as nat)) == Ok::<
            (Seq<char>, u16),
            ErrorModel,
        >(("localhost"@, p)),
{
    reveal_strlit("http://");
    reveal_strlit("https://");
    reveal_strlit("http://localhost:");
    reveal_strlit("localhost");
    let d = decimal(p as nat);
    lemma_decimal(p as nat);
    assert(is_digit(d[0]));
    assert(is_digit(d[d.len() - 1]));
    lemma_trim_fixed(d);
    lemma_no_scheme_on_digits(d);
    lemma_digits_host_port(d, p);
    assert(d.take(d.len() as int) =~= d);

    let u = "http://localhost:"@ + d;
    assert(u[0] == 'h');
    assert(u.last() == d.last());
    lemma_trim_fixed(u);
    assert(u.subrange(0, 7) =~= "http://"@);
    let s = u.skip(7);
    assert(strip_scheme(u) == s);
    assert(s.len() == 10 + d.len());
    assert(forall|j: int| 10 <= j < s.len() ==> s[j] == d[j - 10]);
    assert(forall|j: int| 0 <= j < 10 ==> s[j] == "localhost:"@[j]) by {
        reveal_strlit("localhost:");
    }
    reveal_strlit("localhost:");
    lemma_find_char_from(s, '/', 0);
    if let Some(k) = find_char(s, '/') {
        if k >= 10 {
            assert(is_digit(d[k - 10]));
        }
    }
    assert(before_char(s, '/') == s) by {
        assert(s.take(s.len() as int) =~= s);
    }
    lemma_rfind_char_before(s, ':', s.len() as int);
    assert(s[9] == ':');
    let k = rfind_char(s, ':')->0;
    if k > 9 {
        assert(is_digit(d[k - 10]));
    }
    assert(k == 9);
    assert(s.skip(10) =~= d);
    assert(s.take(9) =~= "localhost"@);
}

/// The `(host, port)` of a successful [`parse_host_port`], if any.
pub open spec fn host_port_of(r: Result<(Seq<char>, u16), ErrorModel>) -> Option<(Seq<char>, u16)> {
    match r {
        Ok(hp) => Some(hp),
        Err(_) => None,
    }
}

/// Normalizing a target with [`parse_target`] never changes the local
/// `(host, port)` that [`parse_host_port`] reads from it: whatever input
/// `parse_target` accepts, `parse_host_port` reads the same host and port (or
/// fails alike) from the input and from its forwarding URL.
pub proof fn law_normalizing_keeps_host_port(input: Seq<char>)
    ensures
        spec_parse_target(input) matches Ok(u) ==> host_port_of(spec_parse_host_port(u))
            == host_port_of(spec_parse_host_port(input)),
{
    let t = trim(input);
    lemma_trim_ends(input);
    reveal_strlit("http://");
    reveal_strlit("https://");
    if let Ok(u) = spec_parse_target(input) {
        if starts_with(t, "http://"@) || starts_with(t, "https://"@) {
            lemma_trim_fixed(t);
            assert(u == t);
        } else if all_digits(t) {
            let v = digits_value(t);
            lemma_no_scheme_on_digits(t);
            lemma_digits_host_port(t, v as u16);
            law_port_and_url_agree(v as u16);
            assert(u == "http://localhost:"@ + decimal((v as u16) as nat));
        } else {
            assert(u == "http://"@ + t);
            assert(u[0] == 'h');
            assert(u.last() == t.last());
            lemma_trim_fixed(u);
            assert(u.subrange(0, 7) =~= "http://"@);
            assert(starts_with(u, "http://"@));
            assert(u.skip(7) =~= t);
            assert(strip_scheme(u) == t);
            assert(strip_scheme(t) == t);
        }
    }
}

/// Every scheme-less `host:port` target is forwarded to over plain HTTP:
/// for a non-empty host, a `:` and a non-empty run of ASCII digits, with any
/// whitespace around them, [`parse_target`] gives `http://host:digits`,
/// whatever characters the host is made of (`127.0.0.1`, `my-app`, `[::1]`).
/// Only a target that already starts with `http://` or `https://` is kept as
/// it is.
pub proof fn law_host_port_target_gets_http(
    pre: Seq<char>,
    host: Seq<char>,
    digits: Seq<char>,
    post: Seq<char>,
)
    requires
        host.len() > 0,
        !is_ws(host[0]),
        digits.len() > 0,
        all_digits(digits),
        forall|i: int| 0 <= i < pre.len() ==> is_ws(#[trigger] pre[i]),
        forall|i: int| 0 <= i < post.len() ==> is_ws(#[trigger] post[i]),
        !starts_with(host + ":"@ + digits, "http://"@),
        !starts_with(host + ":"@ + digits, "https://"@),
    ensures
        spec_parse_target(pre + (host + ":"@ + digits) + post) == Ok::<Seq<char>, ErrorModel>(
            "http://"@ + host + ":"@ + digits,
        ),
{
    reveal_strlit(":");
    let t = host + ":"@ + digits;
    let k = host.len() as int;
    assert(t[0] == host[0]);
    assert(t.last() == digits.last());
    assert(is_digit(digits[digits.len() - 1]));
    lemma_trim_padded(pre, t, post);
    assert(t[k] == ':');
    assert(!all_digits(t)) by {
        assert(!is_digit(t[k]));
    }
    lemma_rfind_char_before(t, ':', t.len() as int);
    assert forall|j: int| k < j < t.len() implies t[j] != ':' by {
        assert(t[j] == digits[j - k - 1]);
        assert(is_digit(digits[j - k - 1]));
    }
    assert(rfind_char(t, ':') == Some(k));
    assert(t.skip(k + 1) =~= digits);
    assert("http://"@ + t =~= "http://"@ + host + ":"@ + digits);
}

/// A `host:port` input names that host and port: for a non-empty host
/// holding no `/`, a `:` and the decimal digits of a port from 1 to 65535,
/// with any whitespace around them, [`parse_host_port`] gives the host and
/// the port.
pub proof fn law_host_port_reads_host_and_port(
    pre: Seq<char>,
    host: Seq<char>,
    digits: Seq<char>,
    post: Seq<char>,
)
    requires
        host.len() > 0,
        !is_ws(host[0]),
        forall|i: int| 0 <= i < host.len() ==> #[trigger] host[i] != '/',
        digits.len() > 0,
        all_digits(digits),
        1 <= digits_value(digits) <= 65535,
        forall|i: int| 0 <= i < pre.len() ==> is_ws(#[trigger] pre[i]),
        forall|i: int| 0 <= i < post.len() ==> is_ws(#[trigger] post[i]),
        !starts_with(host + ":"@ + digits, "http://"@),
        !starts_with(host + ":"@ + digits, "https://"@),
    ensures
        spec_parse_host_port(pre + (host + ":"@ + digits) + post) == Ok::<
            (Seq<char>, u16),
            ErrorModel,
        >((host, digits_value(digits) as u16)),
{
    reveal_strlit(":");
    let t = host + ":"@ + digits;
    let k = host.len() as int;
    assert(t[0] == host[0]);
    assert(t.last() == digits.last());
    assert(is_digit(digits[digits.len() - 1]));
    lemma_trim_padded(pre, t, post);
    assert(strip_scheme(t) == t);
    assert forall|j: int| 0 <= j < t.len() implies t[j] != '/' by {
        if j < k {
            assert(t[j] == host[j]);
        } else if j > k {
            assert(t[j] == digits[j - k - 1]);
            assert(is_digit(digits[j - k - 1]));
        }
    }
    lemma_find_char_from(t, '/', 0);
    assert(before_char(t, '/') == t);
    assert(t[k] == ':');
    lemma_rfind_char_before(t, ':', t.len() as int);
    assert forall|j: int| k < j < t.len() implies t[j] != ':' by {
        assert(t[j] == digits[j - k - 1]);
        assert(is_digit(digits[j - k - 1]));
    }
    assert(rfind_char(t, ':') == Some(k));
    assert(t.skip(k + 1) =~= digits);
    assert(is_digit(digits[0]));
    assert(t.take(k) =~= host);
}

} // verus!
