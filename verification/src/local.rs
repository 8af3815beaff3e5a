//! Decisions about the local machine: which dev-server ports count as found,
//! and which commands hand a URL to the clipboard or the browser. Probing
//! ports and running those commands is left to the program around this
//! library.

use vstd::prelude::*;

use crate::text::str_eq;

verus! {

/// Ports we probe when no target is given — the defaults of the dev servers
/// people run most often (CRA/Next, Vite, Tomcat-ish, Django, Angular, Flask,
/// Hugo, Astro).
pub const COMMON_PORTS: [u16; 8] = [3000, 5173, 8080, 8000, 4200, 5000, 1313, 4321];

/// The ports whose probe found a listener, in the order they were probed.
pub open spec fn spec_live_ports(ports: Seq<u16>, listening: Seq<bool>) -> Seq<u16>
    decreases ports.len(),
{
    if ports.len() == 0 {
        Seq::empty()
    } else {
        let rest = spec_live_ports(ports.drop_last(), listening.take(ports.len() - 1));
        if listening[ports.len() - 1] {
            rest.push(ports.last())
        } else {
            rest
        }
    }
}

/// `result` lists `ports[idx[0]], ports[idx[1]], ...` for increasing
/// positions `idx` whose probes found a listener, and every position whose
/// probe found one is among them.
pub open spec fn listening_positions(
    ports: Seq<u16>,
    listening: Seq<bool>,
    result: Seq<u16>,
    idx: Seq<int>,
) -> bool {
    &&& idx.len() == result.len()
    &&& forall|k: int|
        0 <= k < result.len() ==> 0 <= #[trigger] idx[k] < ports.len() && listening[idx[k]]
            && result[k] == ports[idx[k]]
    &&& forall|k1: int, k2: int| 0 <= k1 < k2 < result.len() ==> idx[k1] < idx[k2]
    &&& forall|i: int|
        0 <= i < ports.len() && #[trigger] listening[i] ==> exists|k: int|
            0 <= k < idx.len() && idx[k] == i
}

/// A probed port is reported exactly when its probe found a listener, in
/// probe order.
pub proof fn law_live_ports_are_the_listening_ones(ports: Seq<u16>, listening: Seq<bool>)
    requires
        ports.len() == listening.len(),
    ensures
        exists|idx: Seq<int>|
            #[trigger] listening_positions(ports, listening, spec_live_ports(ports, listening), idx),
{
    let idx = lemma_live_positions(ports, listening);
}

proof fn lemma_live_positions(ports: Seq<u16>, listening: Seq<bool>) -> (idx: Seq<int>)
    requires
        ports.len() == listening.len(),
    ensures
        listening_positions(ports, listening, spec_live_ports(ports, listening), idx),
    decreases ports.len(),
{
    if ports.len() == 0 {
        Seq::empty()
    } else {
        let n = ports.len() - 1;
        let pl = ports.drop_last();
        let ll = listening.take(n);
        let prev = lemma_live_positions(pl, ll);
        let rest = spec_live_ports(pl, ll);
        assert forall|k: int| 0 <= k < rest.len() implies 0 <= #[trigger] prev[k] < ports.len()
            && listening[prev[k]] && rest[k] == ports[prev[k]] by {
            assert(ll[prev[k]] == listening[prev[k]]);
            assert(pl[prev[k]] == ports[prev[k]]);
        }
        if listening[n] {
            let idx = prev.push(n);
            let r = rest.push(ports.last());
            assert(spec_live_ports(ports, listening) == r);
            assert forall|k: int| 0 <= k < r.len() implies 0 <= #[trigger] idx[k] < ports.len()
                && listening[idx[k]] && r[k] == ports[idx[k]] by {
                if k < rest.len() {
                    assert(idx[k] == prev[k]);
                }
            }
            assert forall|i: int| 0 <= i < ports.len() && #[trigger] listening[i] implies exists|
                k: int,
            | 0 <= k < idx.len() && idx[k] == i by {
                if i < n {
                    assert(ll[i] == listening[i]);
                    let k = choose|k: int| 0 <= k < prev.len() && prev[k] == i;
                    assert(idx[k] == i);
                } else {
                    assert(idx[prev.len() as int] == i);
                }
            }
            idx
        } else {
            assert(spec_live_ports(ports, listening) == rest);
            assert forall|i: int| 0 <= i < ports.len() && #[trigger] listening[i] implies exists|
                k: int,
            | 0 <= k < prev.len() && prev[k] == i by {
                assert(i < n);
                assert(ll[i] == listening[i]);
            }
            prev
        }
    }
}

/// Of `ports`, those with something listening (`listening[i]` for
/// `ports[i]`), in `ports` order.
pub fn live_ports(ports: &[u16], listening: &[bool]) -> (r: Vec<u16>)
    requires
        ports.len() == listening.len(),
    ensures
        r@ == spec_live_ports(ports@, listening@),
{
    let mut live: Vec<u16> = Vec::new();
    let mut i: usize = 0;
    while i < ports.len()
        invariant
            i <= ports.len() == listening.len(),
            live@ == spec_live_ports(ports@.take(i as int), listening@.take(i as int)),
        decreases ports.len() - i,
    {
        proof {
            assert(ports@.take(i + 1).drop_last() =~= ports@.take(i as int));
            assert(listening@.take(i + 1).take(i as int) =~= listening@.take(i as int));
        }
        if listening[i] {
            live.push(ports[i]);
        }
        i = i + 1;
    }
    proof {
        assert(ports@.take(ports.len() as int) =~= ports@);
        assert(listening@.take(listening.len() as int) =~= listening@);
    }
    live
}

/// What to do with the dev servers found on the common ports.
#[derive(Clone, Copy, Debug, PartialEq, Eq, Structural)]
pub enum DetectedTarget {
    /// Nothing is listening: the user has to name a port.
    NoServer,
    /// Share this port.
    Port(u16),
    /// Several are listening: ask the user which one.
    Ask,
}

/// No server → say so; one → share it; several → ask when someone can answer
/// (`interactive`), else share the first.
pub fn detected_target(live: &[u16], interactive: bool) -> (r: DetectedTarget)
    ensures
        live.len() == 0 ==> r == DetectedTarget::NoServer,
        live.len() == 1 ==> r == DetectedTarget::Port(live[0]),
        live.len() > 1 && !interactive ==> r == DetectedTarget::Port(live[0]),
        live.len() > 1 && interactive ==> r == DetectedTarget::Ask,
{
    if live.len() == 0 {
        DetectedTarget::NoServer
    } else if live.len() == 1 || !interactive {
        DetectedTarget::Port(live[0])
    } else {
        DetectedTarget::Ask
    }
}

/// A program to run, with its arguments.
pub struct ExternalCommand {
    pub program: &'static str,
    pub args: Vec<&'static str>,
}

/// The views of a list of string slices.
pub open spec fn str_views(v: Seq<&'static str>) -> Seq<Seq<char>> {
    v.map_values(|s: &'static str| s@)
}

/// A command by its views.
pub open spec fn command_view(c: ExternalCommand) -> (Seq<char>, Seq<Seq<char>>) {
    (c.program@, str_views(c.args@))
}

/// The clipboard tools tried on `os`, in order: `pbcopy` on macOS, `clip` on
/// Windows, else `wl-copy`, `xclip -selection clipboard`, `xsel --clipboard --input`.
pub open spec fn spec_clipboard_commands(os: Seq<char>) -> Seq<(Seq<char>, Seq<Seq<char>>)> {
    if os == "macos"@ {
        seq![("pbcopy"@, Seq::empty())]
    } else if os == "windows"@ {
        seq![("clip"@, Seq::empty())]
    } else {
        seq![
            ("wl-copy"@, Seq::empty()),
            ("xclip"@, seq!["-selection"@, "clipboard"@]),
            ("xsel"@, seq!["--clipboard"@, "--input"@]),
        ]
    }
}

/// The clipboard tools to try, in order, on `os` (a value of
/// `std::env::consts::OS`).
pub fn clipboard_commands(os: &str) -> (r: Vec<ExternalCommand>)
    ensures
        r@.map_values(|c: ExternalCommand| command_view(c)) == spec_clipboard_commands(os@),
{
    let mut cmds: Vec<ExternalCommand> = Vec::new();
    if str_eq(os, "macos") {
        let none: Vec<&'static str> = Vec::new();
        assert(str_views(none@) =~= Seq::<Seq<char>>::empty());
        cmds.push(ExternalCommand { program: "pbcopy", args: none });
    } else if str_eq(os, "windows") {
        let none: Vec<&'static str> = Vec::new();
        assert(str_views(none@) =~= Seq::<Seq<char>>::empty());
        cmds.push(ExternalCommand { program: "clip", args: none });
    } else {
        let none: Vec<&'static str> = Vec::new();
        assert(str_views(none@) =~= Seq::<Seq<char>>::empty());
        cmds.push(ExternalCommand { program: "wl-copy", args: none });
        let mut xclip: Vec<&'static str> = Vec::new();
        xclip.push("-selection");
        xclip.push("clipboard");
        assert(str_views(xclip@) =~= seq!["-selection"@, "clipboard"@]);
        cmds.push(ExternalCommand { program: "xclip", args: xclip });
        let mut xsel: Vec<&'static str> = Vec::new();
        xsel.push("--clipboard");
        xsel.push("--input");
        assert(str_views(xsel@) =~= seq!["--clipboard"@, "--input"@]);
        cmds.push(ExternalCommand { program: "xsel", args: xsel });
    }
    assert(cmds@.map_values(|c: ExternalCommand| command_view(c)) =~= spec_clipboard_commands(os@));
    cmds
}

/// The command that opens a URL in the default browser on `os`, before the
/// URL itself: `open` on macOS, `cmd /C start ""` on Windows, else `xdg-open`.
pub open spec fn spec_browser_command(os: Seq<char>) -> (Seq<char>, Seq<Seq<char>>) {
    if os == "macos"@ {
        ("open"@, Seq::empty())
    } else if os == "windows"@ {
        ("cmd"@, seq!["/C"@, "start"@, ""@])
    } else {
        ("xdg-open"@, Seq::empty())
    }
}

/// The command that opens a URL in the default browser on `os` (a value of
/// `std::env::consts::OS`); the URL goes after its arguments.
pub fn browser_command(os: &str) -> (r: ExternalCommand)
    ensures
        command_view(r) == spec_browser_command(os@),
{
    if str_eq(os, "macos") {
        let r = ExternalCommand { program: "open", args: Vec::new() };
        assert(str_views(r.args@) =~= Seq::empty());
        r
    } else if str_eq(os, "windows") {
        let mut args: Vec<&'static str> = Vec::new();
        args.push("/C");
        args.push("start");
        args.push("");
        let r = ExternalCommand { program: "cmd", args };
        assert(str_views(r.args@) =~= seq!["/C"@, "start"@, ""@]);
        r
    } else {
        let r = ExternalCommand { program: "xdg-open", args: Vec::new() };
        assert(str_views(r.args@) =~= Seq::empty());
        r
    }
}

} // verus!
