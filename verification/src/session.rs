//! The decisions of a sharing session: which target to share when the user
//! picks from a list, where to forward to once the local server has answered,
//! and when to stop redialing a tunnel that keeps failing to start.

use vstd::prelude::*;
use vstd::string::StringExecFns;

use crate::cli::{law_port_and_url_agree, parse_target, spec_parse_target, string_result};
use crate::error::{BeamsError, ErrorModel};
use crate::streak::{ends_failure_run, law_gives_up_at_first_full_run, streak_gives_up_at, streak_step};
use crate::text::{
    all_digits, all_digits_exec, chars_of, decimal, digits_value, digits_value_upto, find,
    find_exec, is_ws, lemma_decimal, lemma_find_from, occurs_at, lemma_trim_padded, push_decimal, trim, trim_range,
};

verus! {

/// The answer to "Which one? [1-N, or type a port] (1)": an empty answer takes
/// the first listed port, a number from 1 to N the listed port at that
/// position, any other number from 1 to 65535 that port itself; anything else
/// is no answer. The target is the chosen port in decimal.
pub open spec fn spec_pick_target(answer: Seq<char>, ports: Seq<u16>) -> Option<Seq<char>> {
    let t = trim(answer);
    if t.len() == 0 {
        Some(decimal(ports[0] as nat))
    } else if all_digits(t) {
        let v = digits_value(t);
        if 1 <= v <= ports.len() {
            Some(decimal(ports[v - 1] as nat))
        } else if 1 <= v <= 65535 {
            Some(decimal(v))
        } else {
            None
        }
    } else {
        None
    }
}

/// The target the user picked from the listed `ports` (distinct ports, so at
/// most 65535 of them), or `None` to ask again.
pub fn pick_target(answer: &str, ports: &[u16]) -> (r: Option<String>)
    requires
        1 <= ports.len() <= 65535,
    ensures
        match r {
            Some(t) => spec_pick_target(answer@, ports@) == Some(t@),
            None => spec_pick_target(answer@, ports@) is None,
        },
{
    let all = chars_of(answer);
    let (a, b) = trim_range(&all);
    let t = chars_of(answer.substring_char(a, b));
    let mut out = String::new();
    if t.len() == 0 {
        push_decimal(&mut out, ports[0] as u64);
        assert(out@ =~= decimal(ports@[0] as nat));
        return Some(out);
    }
    if !all_digits_exec(&t, 0, t.len()) {
        proof {
            assert(t@.subrange(0, t@.len() as int) =~= t@);
        }
        return None;
    }
    proof {
        assert(t@.subrange(0, t@.len() as int) =~= t@);
    }
    match digits_value_upto(&t, 0, t.len(), 65535) {
        Some(v) => {
            if v >= 1 && v <= ports.len() as u64 {
                push_decimal(&mut out, ports[(v - 1) as usize] as u64);
                assert(out@ =~= decimal(ports@[v - 1] as nat));
                Some(out)
            } else if v >= 1 {
                push_decimal(&mut out, v);
                assert(out@ =~= decimal(v as nat));
                Some(out)
            } else {
                None
            }
        },
        None => None,
    }
}

/// Answering with a position in the list picks the port listed there: for
/// every list of ports and every `n` from 1 to its length, the answer `n` in
/// decimal, with any whitespace around it, picks `ports[n - 1]`.
pub proof fn law_position_picks_listed_port(
    pre: Seq<char>,
    n: nat,
    post: Seq<char>,
    ports: Seq<u16>,
)
    requires
        1 <= n <= ports.len(),
        forall|i: int| 0 <= i < pre.len() ==> is_ws(#[trigger] pre[i]),
        forall|i: int| 0 <= i < post.len() ==> is_ws(#[trigger] post[i]),
    ensures
        spec_pick_target(pre + decimal(n) + post, ports) == Some(decimal(ports[n - 1] as nat)),
{
    let d = decimal(n);
    lemma_decimal(n);
    assert(crate::text::is_digit(d[0]));
    assert(crate::text::is_digit(d[d.len() - 1]));
    lemma_trim_padded(pre, d, post);
}

/// Pressing Enter takes the default: an answer made only of whitespace picks
/// the first listed port.
pub proof fn law_blank_answer_picks_first_port(answer: Seq<char>, ports: Seq<u16>)
    requires
        1 <= ports.len(),
        forall|i: int| 0 <= i < answer.len() ==> is_ws(#[trigger] answer[i]),
    ensures
        spec_pick_target(answer, ports) == Some(decimal(ports[0] as nat)),
{
    crate::text::lemma_skip_ws_to(answer, 0, answer.len() as int);
    crate::text::lemma_skip_ws_back_to(
        answer,
        answer.len() as int,
        answer.len() as int,
        answer.len() as int,
    );
    assert(trim(answer).len() == 0);
}

/// Any other port number is taken as the port itself: an answer `v` in
/// decimal, with any whitespace around it, above the list's length and at
/// most 65535, picks port `v`.
pub proof fn law_other_number_is_a_port(pre: Seq<char>, v: nat, post: Seq<char>, ports: Seq<u16>)
    requires
        ports.len() < v <= 65535,
        forall|i: int| 0 <= i < pre.len() ==> is_ws(#[trigger] pre[i]),
        forall|i: int| 0 <= i < post.len() ==> is_ws(#[trigger] post[i]),
    ensures
        spec_pick_target(pre + decimal(v) + post, ports) == Some(decimal(v)),
{
    let d = decimal(v);
    lemma_decimal(v);
    assert(crate::text::is_digit(d[0]));
    assert(crate::text::is_digit(d[d.len() - 1]));
    lemma_trim_padded(pre, d, post);
}

/// `s` with the first occurrence of `pat` replaced by `rep` (`str::replacen`
/// with a count of one).
pub open spec fn replace_first(s: Seq<char>, pat: Seq<char>, rep: Seq<char>) -> Seq<char> {
    match find(s, pat) {
        Some(i) => s.take(i) + rep + s.skip(i + pat.len()),
        None => s,
    }
}

/// The forwarding URL for `target` once `host` (the address that answered)
/// stands for `localhost`.
pub open spec fn spec_retarget_localhost(target: Seq<char>, host: Seq<char>) -> Result<
    Seq<char>,
    ErrorModel,
> {
    match spec_parse_target(target) {
        Ok(url) => Ok(replace_first(url, "://localhost:"@, "://"@ + host + ":"@)),
        Err(e) => Err(e),
    }
}

/// A port the user typed is forwarded to the address that answered: for
/// every port from 1 to 65535 in decimal and every host, the target is
/// `http://<host>:<port>`.
pub proof fn law_port_retargets_to_answering_host(p: u16, host: Seq<char>)
    requires
        p >= 1,
    ensures
        spec_retarget_localhost(decimal(p as nat), host) == Ok::<Seq<char>, ErrorModel>(
            "http://"@ + host + ":"@ + decimal(p as nat),
        ),
{
    reveal_strlit("http://localhost:");
    reveal_strlit("://localhost:");
    reveal_strlit("http://");
    reveal_strlit("://");
    reveal_strlit(":");
    law_port_and_url_agree(p);
    let d = decimal(p as nat);
    let u = "http://localhost:"@ + d;
    let pat = "://localhost:"@;
    lemma_find_from(u, pat, 0);
    assert(u.subrange(4, 17) =~= pat);
    assert(occurs_at(u, pat, 4));
    assert forall|j: int| 0 <= j < 4 implies !occurs_at(u, pat, j) by {
        assert(u.subrange(j, j + 13)[0] == u[j]);
    }
    assert(find(u, pat) == Some(4int));
    assert(u.take(4) + ("://"@ + host + ":"@) + u.skip(17) =~= "http://"@ + host + ":"@ + d);
}

/// Forward to the address that answered: `localhost` may resolve to an empty
/// `::1` first, and the tunnel client would then fail against a working
/// server. `host` is that address as it goes in a URL (`127.0.0.1`, `[::1]`).
pub fn retarget_localhost(target: &str, host: &str) -> (r: Result<String, BeamsError>)
    ensures
        string_result(r) == spec_retarget_localhost(target@, host@),
{
    let url = parse_target(target)?;
    let u = chars_of(url.as_str());
    match find_exec(&u, "://localhost:") {
        Some(i) => {
            let pat = chars_of("://localhost:");
            let mut out = url.as_str().substring_char(0, i).to_owned();
            out.append("://");
            out.append(host);
            out.append(":");
            out.append(url.as_str().substring_char(i + pat.len(), u.len()));
            proof {
                assert(out@ =~= replace_first(url@, "://localhost:"@, "://"@ + host@ + ":"@));
            }
            Ok(out)
        },
        None => Ok(url),
    }
}

/// Failed starts in a row after which beams stops redialing.
pub const MAX_START_FAILURES: u32 = 5;

/// `2` to the power `n`.
pub open spec fn pow2(n: nat) -> nat
    decreases n,
{
    if n == 0 {
        1
    } else {
        2 * pow2((n - 1) as nat)
    }
}

/// The tunnel starts that failed in a row.
pub struct StartFailures {
    count: u32,
}

/// What to do after a failed start.
pub enum RestartStep {
    /// Too many failures in a row: report the error.
    GiveUp,
    /// Wait this many seconds, then dial again.
    RetryAfter { wait_secs: u64, next: StartFailures },
}

impl StartFailures {
    /// Failed starts in a row.
    pub closed spec fn count(self) -> nat {
        self.count as nat
    }

    #[verifier::type_invariant]
    closed spec fn below_limit(self) -> bool {
        self.count < MAX_START_FAILURES
    }

    /// Failed starts in a row.
    pub fn in_a_row(&self) -> (r: u32)
        ensures
            r == self.count(),
    {
        self.count
    }

    /// No failure yet.
    pub fn new() -> (r: StartFailures)
        ensures
            r.count() == 0,
    {
        StartFailures { count: 0 }
    }

    /// A start succeeded: the count starts over.
    pub fn started(self) -> (r: StartFailures)
        ensures
            r.count() == 0,
    {
        StartFailures { count: 0 }
    }

    /// A start failed. Back off so a relay that is refusing everyone right now
    /// gets room to recover: after the n-th failure in a row wait 2^n seconds
    /// (2s, 4s, 8s, 16s), and give up at the fifth.
    pub fn failed(self) -> (r: RestartStep)
        ensures
            match streak_step(MAX_START_FAILURES as nat, self.count(), false) {
                None => r is GiveUp,
                Some(n) => (r matches RestartStep::RetryAfter { wait_secs, next } && wait_secs
                    == pow2(n) && next.count() == n),
            },
    {
        proof {
            use_type_invariant(&self);
        }
        let n = self.count + 1;
        if n >= MAX_START_FAILURES {
            return RestartStep::GiveUp;
        }
        let wait_secs = 1u64 << n;
        proof {
            if n == 1 {
                assert(1u64 << 1u32 == 2u64) by (bit_vector);
            } else if n == 2 {
                assert(1u64 << 2u32 == 4u64) by (bit_vector);
            } else if n == 3 {
                assert(1u64 << 3u32 == 8u64) by (bit_vector);
            } else {
                assert(1u64 << 4u32 == 16u64) by (bit_vector);
            }
            reveal_with_fuel(pow2, 5);
        }
        RestartStep::RetryAfter { wait_secs, next: StartFailures { count: n } }
    }
}

/// The backoff doubles: starting from no failure, the n-th failed start in a
/// row (n from 1 to 4) waits 2 seconds the first time and twice the previous
/// wait each time after, 2 + 4 + 8 + 16 = 30 seconds in all, and the fifth
/// gives up.
pub proof fn law_backoff_doubles(n: nat)
    requires
        1 <= n <= 4,
    ensures
        streak_step(MAX_START_FAILURES as nat, (n - 1) as nat, false) == Some(n),
        pow2(1) == 2,
        n >= 2 ==> pow2(n) == 2 * pow2((n - 1) as nat),
        pow2(1) + pow2(2) + pow2(3) + pow2(4) == 30,
        streak_step(MAX_START_FAILURES as nat, 4, false) is None,
{
    reveal_with_fuel(pow2, 5);
}

/// Dialing a tunnel over and over, beams gives up exactly at the first start
/// that fails for the fifth time in a row, and never while fewer than five
/// starts in a row have failed.
pub proof fn law_gives_up_after_five_failed_starts(starts: Seq<bool>)
    ensures
        match streak_gives_up_at(MAX_START_FAILURES as nat, 0, starts, 0) {
            Some(k) => ends_failure_run(starts, k, 5) && forall|j: int|
                0 <= j < k ==> !ends_failure_run(starts, j, 5),
            None => forall|j: int| 0 <= j < starts.len() ==> !ends_failure_run(starts, j, 5),
        },
{
    law_gives_up_at_first_full_run(MAX_START_FAILURES as nat, starts);
}

} // verus!
