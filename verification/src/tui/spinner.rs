//! A braille spinner with the time elapsed since it started.
use vstd::prelude::*;
use std::time::Duration;
use std::time::Instant;
use crate::clock::{as_millis, as_secs, duration_since, elapsed, now, whole_secs};
use crate::text::{append_chars, decimal, decimal2, decimal2_exec, decimal_exec, owned, push_str, string_of};

verus! {

/// Milliseconds between two frames of the spinner.
pub const FRAME_INTERVAL_MS: u128 = 80;

/// The frames of the spinner, in order.
pub open spec fn braille_frames() -> Seq<Seq<char>> {
    seq!["⠋"@, "⠙"@, "⠹"@, "⠸"@, "⠼"@, "⠴"@, "⠦"@, "⠧"@, "⠇"@, "⠏"@]
}

/// The frame at index `i` (taken modulo the number of frames).
pub fn braille_frame(i: usize) -> (r: &'static str)
    ensures
        r@ == braille_frames()[(i % 10) as int],
{
    let k = i % 10;
    if k == 0 {
        "⠋"
    } else if k == 1 {
        "⠙"
    } else if k == 2 {
        "⠹"
    } else if k == 3 {
        "⠸"
    } else if k == 4 {
        "⠼"
    } else if k == 5 {
        "⠴"
    } else if k == 6 {
        "⠦"
    } else if k == 7 {
        "⠧"
    } else if k == 8 {
        "⠇"
    } else {
        "⠏"
    }
}

/// `secs` as the interface shows an elapsed time: `42s`, `3m 07s`, `2h 05m 09s`.
pub open spec fn elapsed_text(secs: nat) -> Seq<char> {
    if secs < 60 {
        decimal(secs) + "s"@
    } else if secs < 3600 {
        decimal(secs / 60) + "m "@ + decimal2(secs % 60) + "s"@
    } else {
        decimal(secs / 3600) + "h "@ + decimal2((secs % 3600) / 60) + "m "@ + decimal2(secs % 60)
            + "s"@
    }
}

/// Formats a number of seconds as an elapsed time.
pub fn fmt_secs(secs: u64) -> (r: String)
    ensures
        r@ == elapsed_text(secs as nat),
{
    let mut out: Vec<char> = Vec::new();
    proof {
        reveal_strlit("s");
        reveal_strlit("m ");
        reveal_strlit("h ");
    }
    if secs < 60 {
        let d = decimal_exec(secs);
        append_chars(&mut out, d.as_slice());
        out.push('s');
        assert(out@ =~= decimal(secs as nat) + "s"@);
    } else if secs < 3600 {
        let m = decimal_exec(secs / 60);
        let s = decimal2_exec(secs % 60);
        append_chars(&mut out, m.as_slice());
        out.push('m');
        out.push(' ');
        append_chars(&mut out, s.as_slice());
        out.push('s');
        assert(out@ =~= decimal((secs / 60) as nat) + "m "@ + decimal2((secs % 60) as nat) + "s"@);
    } else {
        let h = decimal_exec(secs / 3600);
        let m = decimal2_exec((secs % 3600) / 60);
        let s = decimal2_exec(secs % 60);
        append_chars(&mut out, h.as_slice());
        out.push('h');
        out.push(' ');
        append_chars(&mut out, m.as_slice());
        out.push('m');
        out.push(' ');
        append_chars(&mut out, s.as_slice());
        out.push('s');
        assert(out@ =~= decimal((secs / 3600) as nat) + "h "@ + decimal2(((secs % 3600) / 60) as nat)
            + "m "@ + decimal2((secs % 60) as nat) + "s"@);
    }
    string_of(out.as_slice())
}

/// Formats an elapsed duration by its whole seconds.
pub fn fmt_elapsed(d: Duration) -> (r: String)
    ensures
        r@ == elapsed_text(whole_secs(d) as nat),
        exists|secs: nat| r@ == elapsed_text(secs),
{
    let secs = as_secs(&d);
    fmt_secs(secs)
}

/// A spinner: its frame, label and whether it runs.
pub struct Spinner {
    tick: usize,
    last_frame: Instant,
    start_time: Instant,
    label: String,
    running: bool,
}

/// What a [`Spinner`] shows, apart from its clock.
pub ghost struct SpinnerView {
    pub tick: nat,
    pub label: Seq<char>,
    pub running: bool,
}

impl View for Spinner {
    type V = SpinnerView;

    closed spec fn view(&self) -> SpinnerView {
        SpinnerView { tick: self.tick as nat, label: self.label@, running: self.running }
    }
}

impl Spinner {
    #[verifier::type_invariant]
    spec fn frame_in_range(&self) -> bool {
        self.tick < 10
    }

    /// A stopped spinner at its first frame.
    pub fn new(label: &str) -> (r: Self)
        ensures
            r@ == (SpinnerView { tick: 0, label: label@, running: false }),
    {
        Spinner { tick: 0, last_frame: now(), start_time: now(), label: owned(label), running: false }
    }

    /// Starts the spinner from its first frame and restarts its clock.
    pub fn start(&mut self)
        ensures
            final(self)@ == (SpinnerView { tick: 0, label: old(self)@.label, running: true }),
    {
        self.tick = 0;
        self.running = true;
        self.start_time = now();
        self.last_frame = now();
    }

    /// Stops the spinner.
    pub fn stop(&mut self)
        ensures
            final(self)@ == (SpinnerView { running: false, ..old(self)@ }),
    {
        proof {
            use_type_invariant(&*self);
        }
        self.running = false;
    }

    /// What a spinner shows after a frame interval of `waited_ms`
    /// milliseconds since its last frame: the next frame when at least
    /// [`FRAME_INTERVAL_MS`] have passed, else the same; a stopped spinner
    /// stays as it is.
    pub open spec fn advanced(v: SpinnerView, waited_ms: nat) -> SpinnerView {
        if v.running && waited_ms >= FRAME_INTERVAL_MS {
            SpinnerView { tick: (v.tick + 1) % 10, ..v }
        } else {
            v
        }
    }

    /// The frame a spinner in state `v` shows: nothing when it is stopped.
    pub open spec fn frame_shown(v: SpinnerView) -> Seq<char> {
        if v.running {
            braille_frames()[v.tick as int]
        } else {
            Seq::empty()
        }
    }

    /// Advances the spinner by one frame when `waited_ms` milliseconds, at
    /// least a frame interval, have passed since its last frame, and gives
    /// the frame to show; a stopped spinner shows nothing and stays as it is.
    /// Gives whether the frame advanced.
    pub fn advance(&mut self, waited_ms: u128) -> (r: (&'static str, bool))
        ensures
            final(self)@ == Self::advanced(old(self)@, waited_ms as nat),
            r.0@ == Self::frame_shown(final(self)@),
            r.1 == (old(self)@.running && waited_ms >= FRAME_INTERVAL_MS),
            final(self)@.tick < 10,
    {
        proof {
            use_type_invariant(&*self);
        }
        if !self.running {
            proof {
                reveal_strlit("");
            }
            return ("", false);
        }
        let moved = waited_ms >= FRAME_INTERVAL_MS;
        if moved {
            self.tick = (self.tick + 1) % 10;
        }
        (braille_frame(self.tick), moved)
    }

    /// Advances the spinner when a frame interval has passed since the last
    /// frame (as [`Spinner::advance`] does for the milliseconds the clock
    /// gives), and gives the frame to show; a stopped spinner shows nothing.
    pub fn tick(&mut self) -> (r: &'static str)
        ensures
            exists|waited_ms: nat| final(self)@ == #[trigger] Self::advanced(old(self)@, waited_ms),
            r@ == Self::frame_shown(final(self)@),
            final(self)@.tick < 10,
    {
        let t = now();
        let waited = duration_since(&t, &self.last_frame);
        let (frame, moved) = self.advance(as_millis(&waited));
        if moved {
            self.last_frame = t;
        }
        frame
    }

    /// The time since the spinner started.
    pub fn elapsed_str(&self) -> (r: String)
        ensures
            exists|secs: nat| r@ == elapsed_text(secs),
    {
        fmt_elapsed(elapsed(&self.start_time))
    }

    /// Whether the spinner runs.
    pub fn is_running(&self) -> (r: bool)
        ensures
            r == self@.running,
    {
        self.running
    }

    /// `frame label elapsed`, or nothing when the spinner is stopped.
    pub fn render_line(&self) -> (r: String)
        ensures
            !self@.running ==> r@ == Seq::<char>::empty(),
            self@.running ==> exists|secs: nat|
                r@ == braille_frames()[self@.tick as int] + " "@ + self@.label + " "@
                    + elapsed_text(secs),
    {
        proof {
            use_type_invariant(self);
        }
        if !self.running {
            return String::new();
        }
        proof {
            reveal_strlit(" ");
        }
        let frame = braille_frame(self.tick);
        let e = self.elapsed_str();
        let mut r = owned(frame);
        push_str(&mut r, " ");
        push_str(&mut r, self.label.as_str());
        push_str(&mut r, " ");
        push_str(&mut r, e.as_str());
        r
    }
}

} // verus!
