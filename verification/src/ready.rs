//! Deciding when a tunnel is up, and when it has died.

use vstd::prelude::*;

use crate::streak::{
    ends_failure_run, failures_before, law_gives_up_at_first_full_run, lemma_step_tracks_run,
    streak_gives_up_at, streak_step,
};
use crate::text::{
    all_digits, before_char, chars_of, find, find_char, find_char_from_exec, find_exec,
    lemma_before_char, lemma_find_char_from, lemma_find_from, lemma_find_none, occurs_at,
};

verus! {

/// Attempts, one second apart, at seeing the hostname in public DNS.
pub const DNS_ATTEMPTS: u32 = 20;

/// Attempts, one second apart, at reaching the public endpoint once it resolves.
pub const REACH_ATTEMPTS: u32 = 15;

/// Seconds between two liveness probes of a running tunnel.
pub const PROBE_INTERVAL_SECS: u64 = 15;

/// Consecutive failed probes after which a tunnel counts as dead.
pub const DEAD_AFTER_FAILURES: u32 = 3;

/// The HTTP status the Cloudflare edge answers for a hostname whose tunnel is
/// gone (error 1033).
pub const EDGE_TUNNEL_GONE: u16 = 530;

/// The bare hostname of a public URL or a `host:port` address: the scheme,
/// the path and the port removed.
pub open spec fn spec_hostname_of(url: Seq<char>) -> Seq<char> {
    let after = match find(url, "://"@) {
        Some(i) => url.skip(i + "://"@.len()),
        None => url,
    };
    before_char(before_char(after, '/'), ':')
}

/// The bare hostname of a public URL or a `host:port` address.
pub fn hostname_of(public_url: &str) -> (r: &str)
    ensures
        r@ == spec_hostname_of(public_url@),
{
    let u = chars_of(public_url);
    let start = match find_exec(&u, "://") {
        Some(i) => {
            let sep = chars_of("://");
            i + sep.len()
        },
        None => 0,
    };
    let after = public_url.substring_char(start, u.len());
    let a = chars_of(after);
    let end1 = match find_char_from_exec(&a, '/', 0) {
        Some(k) => k,
        None => a.len(),
    };
    let auth = after.substring_char(0, end1);
    let b = chars_of(auth);
    let end2 = match find_char_from_exec(&b, ':', 0) {
        Some(k) => k,
        None => b.len(),
    };
    proof {
        assert(after@ =~= match find(public_url@, "://"@) {
            Some(i) => public_url@.skip(i + "://"@.len()),
            None => public_url@,
        });
        assert(auth@ =~= before_char(after@, '/'));
    }
    let r = public_url.substring_char(start, start + end2);
    proof {
        assert(r@ =~= before_char(auth@, ':'));
    }
    r
}

/// A hostname keeps neither a path nor a port: it holds no `/` and no `:`.
pub proof fn law_hostname_has_no_path_or_port(url: Seq<char>)
    ensures
        forall|j: int|
            0 <= j < spec_hostname_of(url).len() ==> #[trigger] spec_hostname_of(url)[j] != '/'
                && spec_hostname_of(url)[j] != ':',
{
    let after = match find(url, "://"@) {
        Some(i) => url.skip(i + "://"@.len()),
        None => url,
    };
    let a = before_char(after, '/');
    lemma_before_char(after, '/');
    lemma_before_char(a, ':');
    let h = before_char(a, ':');
    assert forall|j: int| 0 <= j < h.len() implies h[j] != '/' && h[j] != ':' by {
        assert(h[j] == a[j]);
    }
}

proof fn lemma_host_before_port_or_path(host: Seq<char>, rest: Seq<char>)
    requires
        forall|i: int| 0 <= i < host.len() ==> #[trigger] host[i] != '/' && host[i] != ':',
        rest.len() == 0 || rest[0] == '/' || rest[0] == ':',
    ensures
        before_char(before_char(host + rest, '/'), ':') == host,
{
    let x = host + rest;
    let h = host.len() as int;
    lemma_find_char_from(x, '/', 0);
    lemma_before_char(x, '/');
    let a = before_char(x, '/');
    assert forall|j: int| 0 <= j < h implies x[j] != '/' by {
        assert(x[j] == host[j]);
    }
    assert(a.len() >= h) by {
        if let Some(k) = find_char(x, '/') {
            assert(x[k] == '/');
        }
    }
    lemma_find_char_from(a, ':', 0);
    assert forall|j: int| 0 <= j < h implies a[j] != ':' by {
        assert(a[j] == x[j]);
        assert(x[j] == host[j]);
    }
    if a.len() == h {
        assert(a =~= host);
    } else {
        assert(a[h] == x[h]);
        assert(x[h] == rest[0]);
        assert(a[h] != '/');
        assert(find_char(a, ':') == Some(h));
        assert(a.take(h) =~= host);
    }
}

/// The hostname of an `https://` URL is what stands between the scheme and
/// the port or path: for a host holding no `/` and no `:`, followed by
/// nothing, a `:port` or a `/path`, the hostname of `https://<host><rest>` is
/// the host.
pub proof fn law_hostname_of_url(host: Seq<char>, rest: Seq<char>)
    requires
        forall|i: int| 0 <= i < host.len() ==> #[trigger] host[i] != '/' && host[i] != ':',
        rest.len() == 0 || rest[0] == '/' || rest[0] == ':',
    ensures
        spec_hostname_of("https://"@ + host + rest) == host,
{
    reveal_strlit("https://");
    reveal_strlit("://");
    let url = "https://"@ + host + rest;
    assert(url =~= "https://"@ + (host + rest));
    lemma_find_from(url, "://"@, 0);
    assert(url.subrange(5, 8) =~= "://"@);
    assert(occurs_at(url, "://"@, 5));
    assert forall|j: int| 0 <= j < 5 implies !occurs_at(url, "://"@, j) by {
        assert(url.subrange(j, j + 3)[0] == url[j]);
    }
    assert(find(url, "://"@) == Some(5int));
    assert(url.skip(8) =~= host + rest);
    lemma_host_before_port_or_path(host, rest);
}

/// The hostname of a `host:port` address is the host: for a host holding no
/// `/` and no `:` and a port of digits, the hostname of `<host>:<port>` is
/// the host.
pub proof fn law_hostname_of_address(host: Seq<char>, port: Seq<char>)
    requires
        forall|i: int| 0 <= i < host.len() ==> #[trigger] host[i] != '/' && host[i] != ':',
        all_digits(port),
    ensures
        spec_hostname_of(host + ":"@ + port) == host,
{
    reveal_strlit(":");
    reveal_strlit("://");
    let a = host + ":"@ + port;
    assert(a =~= host + (":"@ + port));
    assert forall|j: int| 0 <= j implies !occurs_at(a, "://"@, j) by {
        if occurs_at(a, "://"@, j) {
            assert(a.subrange(j, j + 3)[1] == a[j + 1]);
            if j + 1 < host.len() {
                assert(a[j + 1] == host[j + 1]);
            } else if j + 1 > host.len() {
                assert(a[j + 1] == port[j + 1 - host.len() - 1]);
                assert(crate::text::is_digit(port[j + 1 - host.len() - 1]));
            }
        }
    }
    lemma_find_none(a, "://"@);
    lemma_host_before_port_or_path(host, ":"@ + port);
}

/// A probe answered by the tunnel itself, not by the edge reporting it gone.
pub fn status_means_alive(status: u16) -> (r: bool)
    ensures
        r == (status != EDGE_TUNNEL_GONE),
{
    status != EDGE_TUNNEL_GONE
}

/// The length of the `Answer` array in a DNS-over-HTTPS JSON reply, as
/// `serde_json` reads it; `None` when the body is not JSON or has no such array.
pub uninterp spec fn dns_answer_len(body: Seq<char>) -> Option<nat>;

/// Calls `serde_json::from_str::<serde_json::Value>` on `body` and reads the
/// length of its `Answer` array (`Value::as_array`). Claimed: the result is a
/// function of `body` alone, named by [`dns_answer_len`].
#[verifier::external_body]
fn read_dns_answer_len(body: &str) -> (r: Option<usize>)
    ensures
        match r {
            Some(n) => dns_answer_len(body@) == Some(n as nat),
            None => dns_answer_len(body@) is None,
        },
{
    let json: serde_json::Value = serde_json::from_str(body).ok()?;
    json["Answer"].as_array().map(|a| a.len())
}

/// Whether a DNS-over-HTTPS JSON reply carries at least one answer record.
pub fn dns_reply_has_record(body: &str) -> (r: bool)
    ensures
        r == (dns_answer_len(body@) matches Some(n) && n > 0),
{
    match read_dns_answer_len(body) {
        Some(n) => n > 0,
        None => false,
    }
}

// ---------------------------------------------------------------------------
// Liveness
// ---------------------------------------------------------------------------
/// One liveness probe: `None` once the tunnel counts as dead, else the new
/// count of consecutive failures.
pub open spec fn watch_step(failures: nat, alive: bool) -> Option<nat> {
    streak_step(DEAD_AFTER_FAILURES as nat, failures, alive)
}

/// A watch over a running tunnel: the failed probes in a row so far.
pub struct LivenessWatch {
    failures: u32,
}

/// What a watch does after a probe.
pub enum WatchStep {
    /// Keep probing.
    Watching(LivenessWatch),
    /// The tunnel stopped answering.
    Dead,
}

impl LivenessWatch {
    /// Failed probes in a row.
    pub closed spec fn failures(self) -> nat {
        self.failures as nat
    }

    #[verifier::type_invariant]
    closed spec fn below_tolerance(self) -> bool {
        self.failures < DEAD_AFTER_FAILURES
    }

    /// A fresh watch.
    pub fn new() -> (w: LivenessWatch)
        ensures
            w.failures() == 0,
    {
        LivenessWatch { failures: 0 }
    }

    /// Record one probe. One failed probe is normal (a blip, a slow edge); only
    /// a run of [`DEAD_AFTER_FAILURES`] failures counts as dead.
    pub fn observe(self, alive: bool) -> (r: WatchStep)
        ensures
            match watch_step(self.failures(), alive) {
                None => r is Dead,
                Some(f) => (r matches WatchStep::Watching(w) && w.failures() == f),
            },
    {
        proof {
            use_type_invariant(&self);
        }
        if alive {
            WatchStep::Watching(LivenessWatch { failures: 0 })
        } else if self.failures + 1 >= DEAD_AFTER_FAILURES {
            WatchStep::Dead
        } else {
            WatchStep::Watching(LivenessWatch { failures: self.failures + 1 })
        }
    }
}

/// Probing a tunnel, the watch declares it dead exactly at the first probe
/// that fails for the third time in a row, and never while the tunnel has not
/// failed three probes in a row.
pub proof fn law_dead_after_three_failures_in_a_row(probes: Seq<bool>)
    ensures
        match streak_gives_up_at(DEAD_AFTER_FAILURES as nat, 0, probes, 0) {
            Some(k) => ends_failure_run(probes, k, 3) && forall|j: int|
                0 <= j < k ==> !ends_failure_run(probes, j, 3),
            None => forall|j: int| 0 <= j < probes.len() ==> !ends_failure_run(probes, j, 3),
        },
{
    law_gives_up_at_first_full_run(DEAD_AFTER_FAILURES as nat, probes);
}

/// Fed the probe outcomes one by one, a watch counts the failed probes in a
/// row: a fresh watch has counted none, and when a watch holding the failures
/// in a row before probe `i` observes that probe, [`LivenessWatch::observe`]
/// answers `Dead` exactly when the probe ends a run of three failures, and
/// otherwise keeps watching with the failures in a row up to and including it.
pub proof fn law_watch_counts_failures_in_a_row(w: LivenessWatch, probes: Seq<bool>, i: int)
    requires
        0 <= i < probes.len(),
        w.failures() == failures_before(probes, i),
    ensures
        failures_before(probes, 0) == 0,
        match watch_step(w.failures(), probes[i]) {
            None => ends_failure_run(probes, i, 3),
            Some(f) => f == failures_before(probes, i + 1) && !ends_failure_run(probes, i, 3),
        },
{
    lemma_step_tracks_run(DEAD_AFTER_FAILURES as nat, probes, i);
}

// ---------------------------------------------------------------------------
// Retrying a check
// ---------------------------------------------------------------------------
/// Running a check up to a number of times, one second apart, until it
/// succeeds.
pub struct Retry {
    remaining: u32,
}

/// What to do after one check.
pub enum RetryStep {
    /// The probe succeeded: stop with `true`.
    Succeeded,
    /// Sleep one second, then continue with this state.
    SleepThen(Retry),
}

impl Retry {
    /// Checks still allowed.
    pub closed spec fn remaining(self) -> nat {
        self.remaining as nat
    }

    /// Allow `attempts` checks.
    pub fn new(attempts: u32) -> (r: Retry)
        ensures
            r.remaining() == attempts,
    {
        Retry { remaining: attempts }
    }

    /// Whether another check may run; when not, the answer is `false`.
    pub fn may_check(&self) -> (r: bool)
        ensures
            r == (self.remaining() > 0),
    {
        self.remaining > 0
    }

    /// Record the outcome of one check.
    pub fn record(self, ok: bool) -> (r: RetryStep)
        requires
            self.remaining() > 0,
        ensures
            ok ==> r is Succeeded,
            !ok ==> (r matches RetryStep::SleepThen(next) && next.remaining() == self.remaining()
                - 1),
    {
        if ok {
            RetryStep::Succeeded
        } else {
            RetryStep::SleepThen(Retry { remaining: self.remaining - 1 })
        }
    }
}

/// Driving a [`Retry`] that allows `remaining` checks over the outcomes
/// `checks` (from index `i` on): the answer and the number of checks run.
pub open spec fn retry_run(remaining: nat, checks: Seq<bool>, i: int) -> (bool, int)
    decreases remaining,
{
    if remaining == 0 || i < 0 || i >= checks.len() {
        (false, i)
    } else if checks[i] {
        (true, i + 1)
    } else {
        retry_run((remaining - 1) as nat, checks, i + 1)
    }
}

/// A retry with `attempts` checks answers `true` exactly when one of the first
/// `attempts` checks succeeds; it stops at the first success, and otherwise
/// runs all `attempts` checks.
pub proof fn law_retry_stops_at_first_success(attempts: nat, checks: Seq<bool>)
    requires
        checks.len() >= attempts,
    ensures
        retry_run(attempts, checks, 0).0 == exists|j: int| 0 <= j < attempts && #[trigger] checks[j],
        retry_run(attempts, checks, 0).0 ==> {
            let n = retry_run(attempts, checks, 0).1;
            1 <= n <= attempts && checks[n - 1] && forall|j: int| 0 <= j < n - 1 ==> !checks[j]
        },
        !retry_run(attempts, checks, 0).0 ==> retry_run(attempts, checks, 0).1 == attempts,
{
    lemma_retry_run(attempts, checks, 0);
}

proof fn lemma_retry_run(remaining: nat, checks: Seq<bool>, i: int)
    requires
        0 <= i,
        i + remaining <= checks.len(),
    ensures
        retry_run(remaining, checks, i).0 == exists|j: int|
            i <= j < i + remaining && #[trigger] checks[j],
        retry_run(remaining, checks, i).0 ==> {
            let n = retry_run(remaining, checks, i).1;
            i + 1 <= n <= i + remaining && checks[n - 1] && forall|j: int|
                i <= j < n - 1 ==> !checks[j]
        },
        !retry_run(remaining, checks, i).0 ==> retry_run(remaining, checks, i).1 == i + remaining,
    decreases remaining,
{
    if remaining > 0 && !checks[i] {
        lemma_retry_run((remaining - 1) as nat, checks, i + 1);
        if retry_run(remaining, checks, i).0 {
        } else {
            assert forall|j: int| i <= j < i + remaining implies !#[trigger] checks[j] by {
                if j > i {
                }
            }
        }
    }
}

/// Driving a [`Retry`] with [`Retry::may_check`] and [`Retry::record`] over
/// the outcomes `checks` is [`retry_run`]: with no check left the answer is
/// `false` at once; a check that succeeds stops with `true`; one that fails
/// goes on from the next outcome with one check fewer.
pub proof fn law_record_follows_retry_run(r: Retry, checks: Seq<bool>, i: int)
    requires
        0 <= i < checks.len(),
    ensures
        r.remaining() == 0 ==> retry_run(r.remaining(), checks, i) == (false, i),
        r.remaining() > 0 && checks[i] ==> retry_run(r.remaining(), checks, i) == (true, i + 1),
        r.remaining() > 0 && !checks[i] ==> retry_run(r.remaining(), checks, i) == retry_run(
            (r.remaining() - 1) as nat,
            checks,
            i + 1,
        ),
{
}

} // verus!
