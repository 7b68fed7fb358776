//! Side-effect sinks (clipboard, browser) and the choice of clipboard backend.
use vstd::prelude::*;
use vstd::string::*;

verus! {

/// Somewhere text can be copied to.
pub trait ClipboardSink {
    fn set_text(&mut self, text: String) -> Result<(), String>;
}

/// Something that opens a locator in the default handler.
pub trait BrowserOpener {
    fn open(&mut self, url: &str) -> Result<(), String>;
}

/// What the system offers for copying text.
pub trait ClipboardProbe {
    fn arboard_ok(&self) -> bool;

    fn has_wayland(&self) -> bool;

    fn has_display(&self) -> bool;

    fn command_exists(&self, command: &str) -> bool;
}

/// The clipboard backend in use.
#[derive(Clone, Copy, Debug, PartialEq, Eq, Structural)]
pub enum ClipboardBackend {
    Arboard,
    WlCopy,
    Xclip,
    Unavailable,
}

/// The priority chain: the native clipboard, else the Wayland copy command,
/// else the X11 copy command, else none.
pub open spec fn backend_for(native: bool, wayland_copy: bool, x11_copy: bool) -> ClipboardBackend {
    if native {
        ClipboardBackend::Arboard
    } else if wayland_copy {
        ClipboardBackend::WlCopy
    } else if x11_copy {
        ClipboardBackend::Xclip
    } else {
        ClipboardBackend::Unavailable
    }
}

/// Where probing stands: the next question to ask the system, or the
/// backend chosen.
#[derive(Clone, Copy, Debug, PartialEq, Eq, Structural)]
pub enum ProbeStep {
    AskNative,
    AskWayland,
    AskWlCopy,
    AskDisplay,
    AskXclip,
    Chosen(ClipboardBackend),
}

/// The step after `step` is answered with `answer`: a Wayland or X11 copy
/// command is asked about only in a session of its kind.
pub open spec fn probe_next(step: ProbeStep, answer: bool) -> ProbeStep {
    match step {
        ProbeStep::AskNative => if answer {
            ProbeStep::Chosen(ClipboardBackend::Arboard)
        } else {
            ProbeStep::AskWayland
        },
        ProbeStep::AskWayland => if answer {
            ProbeStep::AskWlCopy
        } else {
            ProbeStep::AskDisplay
        },
        ProbeStep::AskWlCopy => if answer {
            ProbeStep::Chosen(ClipboardBackend::WlCopy)
        } else {
            ProbeStep::AskDisplay
        },
        ProbeStep::AskDisplay => if answer {
            ProbeStep::AskXclip
        } else {
            ProbeStep::Chosen(ClipboardBackend::Unavailable)
        },
        ProbeStep::AskXclip => if answer {
            ProbeStep::Chosen(ClipboardBackend::Xclip)
        } else {
            ProbeStep::Chosen(ClipboardBackend::Unavailable)
        },
        ProbeStep::Chosen(b) => ProbeStep::Chosen(b),
    }
}

/// Questions left at most before a backend is chosen.
pub open spec fn probe_left(step: ProbeStep) -> nat {
    match step {
        ProbeStep::AskNative => 5,
        ProbeStep::AskWayland => 4,
        ProbeStep::AskWlCopy => 3,
        ProbeStep::AskDisplay => 2,
        ProbeStep::AskXclip => 1,
        ProbeStep::Chosen(_) => 0,
    }
}

/// The backend the chain of steps chooses from the system's answers: native
/// clipboard `n`, Wayland session `w` with `wl-copy` found `wl`, X11 display
/// `d` with `xclip` found `x`.
pub open spec fn probed(n: bool, w: bool, wl: bool, d: bool, x: bool) -> ProbeStep {
    let s1 = probe_next(ProbeStep::AskNative, n);
    let s2 = if s1 == ProbeStep::AskWayland { probe_next(s1, w) } else { s1 };
    let s3 = if s2 == ProbeStep::AskWlCopy { probe_next(s2, wl) } else { s2 };
    let s4 = if s3 == ProbeStep::AskDisplay { probe_next(s3, d) } else { s3 };
    if s4 == ProbeStep::AskXclip { probe_next(s4, x) } else { s4 }
}

/// The chain of steps chooses by the priority order.
pub proof fn lemma_probing_follows_priority(n: bool, w: bool, wl: bool, d: bool, x: bool)
    ensures
        probed(n, w, wl, d, x) == ProbeStep::Chosen(backend_for(n, w && wl, d && x)),
{
}

/// The step after an answer.
pub fn next_probe_step(step: ProbeStep, answer: bool) -> (r: ProbeStep)
    ensures
        r == probe_next(step, answer),
{
    match step {
        ProbeStep::AskNative => if answer {
            ProbeStep::Chosen(ClipboardBackend::Arboard)
        } else {
            ProbeStep::AskWayland
        },
        ProbeStep::AskWayland => if answer {
            ProbeStep::AskWlCopy
        } else {
            ProbeStep::AskDisplay
        },
        ProbeStep::AskWlCopy => if answer {
            ProbeStep::Chosen(ClipboardBackend::WlCopy)
        } else {
            ProbeStep::AskDisplay
        },
        ProbeStep::AskDisplay => if answer {
            ProbeStep::AskXclip
        } else {
            ProbeStep::Chosen(ClipboardBackend::Unavailable)
        },
        ProbeStep::AskXclip => if answer {
            ProbeStep::Chosen(ClipboardBackend::Xclip)
        } else {
            ProbeStep::Chosen(ClipboardBackend::Unavailable)
        },
        ProbeStep::Chosen(b) => ProbeStep::Chosen(b),
    }
}

/// The command a step asks about: `wl-copy` for the Wayland one, `xclip`
/// for the X11 one.
pub fn probe_command(step: ProbeStep) -> (r: Option<&'static str>)
    ensures
        step == ProbeStep::AskWlCopy ==> (r matches Some(c) && c@ == "wl-copy"@),
        step == ProbeStep::AskXclip ==> (r matches Some(c) && c@ == "xclip"@),
        step != ProbeStep::AskWlCopy && step != ProbeStep::AskXclip ==> r is None,
{
    match step {
        ProbeStep::AskWlCopy => Some("wl-copy"),
        ProbeStep::AskXclip => Some("xclip"),
        _ => None,
    }
}

/// Probes the system step by step, each question decided by
/// `next_probe_step` and each command by `probe_command`, and returns the
/// backend chosen.
pub fn select_clipboard_backend<P: ClipboardProbe>(probe: &P) -> (r: ClipboardBackend)
    ensures
        exists|n: bool, w: bool, wl: bool, d: bool, x: bool| probed(n, w, wl, d, x) == ProbeStep::Chosen(r),
{
    let mut step = ProbeStep::AskNative;
    let ghost mut ans: (bool, bool, bool, bool, bool) = (false, false, false, false, false);
    loop
        invariant
            match step {
                ProbeStep::AskNative => true,
                ProbeStep::AskWayland => probe_next(ProbeStep::AskNative, ans.0) == step,
                ProbeStep::AskWlCopy => !ans.0 && ans.1,
                ProbeStep::AskDisplay => !ans.0 && (!ans.1 || !ans.2),
                ProbeStep::AskXclip => !ans.0 && (!ans.1 || !ans.2) && ans.3,
                ProbeStep::Chosen(b) => probed(ans.0, ans.1, ans.2, ans.3, ans.4) == step,
            },
        decreases probe_left(step),
    {
        let answer = match step {
            ProbeStep::Chosen(b) => {
                return b;
            },
            ProbeStep::AskNative => probe.arboard_ok(),
            ProbeStep::AskWayland => probe.has_wayland(),
            ProbeStep::AskDisplay => probe.has_display(),
            _ => match probe_command(step) {
                Some(command) => probe.command_exists(command),
                None => false,
            },
        };
        proof {
            match step {
                ProbeStep::AskNative => { ans.0 = answer; },
                ProbeStep::AskWayland => { ans.1 = answer; },
                ProbeStep::AskWlCopy => { ans.2 = answer; },
                ProbeStep::AskDisplay => { ans.3 = answer; },
                ProbeStep::AskXclip => { ans.4 = answer; },
                _ => {},
            }
        }
        step = next_probe_step(step, answer);
    }
}

/// An external command that reads the text to copy on its standard input.
#[derive(Clone, Debug)]
pub struct CommandClipboard {
    pub command: String,
    pub args: Vec<String>,
}

impl CommandClipboard {
    pub fn new(command: &str, args: &[&str]) -> (r: CommandClipboard)
        ensures
            r.command@ == command@,
            r.args@.len() == args@.len(),
            forall|i: int| 0 <= i < args@.len() ==> #[trigger] r.args@[i]@ == args@[i]@,
    {
        let mut out: Vec<String> = Vec::new();
        let mut i: usize = 0;
        while i < args.len()
            invariant
                i <= args@.len(),
                out@.len() == i,
                forall|j: int| 0 <= j < i ==> #[trigger] out@[j]@ == args@[j]@,
            decreases args@.len() - i,
        {
            out.push(String::from_str(args[i]));
            i = i + 1;
        }
        CommandClipboard { command: String::from_str(command), args: out }
    }
}

/// The copy command a command backend runs: `wl-copy`, or `xclip -selection
/// clipboard`; none for the other backends.
pub fn copy_command(backend: ClipboardBackend) -> (r: Option<CommandClipboard>)
    ensures
        match backend {
            ClipboardBackend::WlCopy => r matches Some(c) && c.command@ == "wl-copy"@ && c.args@.len() == 0,
            ClipboardBackend::Xclip => r matches Some(c) && c.command@ == "xclip"@ && c.args@.len() == 2
                && c.args@[0]@ == "-selection"@ && c.args@[1]@ == "clipboard"@,
            _ => r is None,
        },
{
    match backend {
        ClipboardBackend::WlCopy => Some(CommandClipboard::new("wl-copy", &[])),
        ClipboardBackend::Xclip => Some(CommandClipboard::new("xclip", &["-selection", "clipboard"])),
        _ => None,
    }
}

} // verus!
