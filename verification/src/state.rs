//! The pane wrapper's state, what may happen to it, and what follows: each event
//! leads to a next state and to a list of things to be done outside, in order.
//! Times are nanoseconds since some fixed moment.

use vstd::prelude::*;

use crate::args::{optional_text, ArgsView};
use crate::mode::{opening_mode, Mode};
use crate::mouse::{forwarded, holds_marker, holds_wheel_press, pieces, scrolls, Scroll};
use crate::outside::encodable;
use crate::text::{decimal, lines_of, trimmed};
use crate::wire::{input_line_of, resize_line_of, scroll_line_of, Frame};

verus! {

// ---------------------------------------------------------------------------
// times

/// The latest moment that is counted: as many nanoseconds as fit into 64 bits of
/// seconds.
pub const LATEST: u128 = 18_446_744_073_709_551_615_999_999_999;

/// A millisecond.
pub const MILLI: u128 = 1_000_000;

/// A second.
pub const SECOND: u128 = 1_000_000_000;

/// How long the old session gets to go away before the new one is opened.
pub const SWITCH_GAP: u128 = 200_000_000;

/// A writable session that ends sooner than this has failed.
pub const QUICK_CONTROL_FAILURE: u128 = 4_000_000_000;

/// How long a hint stays on the screen.
pub const HINT_TIME: u128 = 1_500_000_000;

/// The least time between two polls of the remote foreground that nobody forces.
pub const FG_POLL_INTERVAL: u128 = 1_500_000_000;

/// How long after input the remote foreground is polled once more.
pub const SETTLE_DELAY: u128 = 350_000_000;

/// How many milliseconds a session that was told to stop has before it is
/// killed.
pub const STOP_GRACE_MILLIS: u64 = 150;

/// How many milliseconds it has when the wrapper itself ends.
pub const EXIT_GRACE_MILLIS: u64 = 100;

/// How many milliseconds to wait before the reconnect after `n` in a row.
pub open spec fn backoff_millis(n: nat) -> u64 {
    if n == 0 {
        1000
    } else if n == 1 {
        2000
    } else if n == 2 {
        5000
    } else {
        10000
    }
}

// ---------------------------------------------------------------------------
// what is to be done outside

/// A session: its number and what it is for.
#[derive(Debug, Clone, Copy, PartialEq, Eq, Structural)]
pub struct Session {
    pub gen: u64,
    pub mode: Mode,
}

/// Something to be done outside.
#[derive(Debug, Clone)]
pub enum Effect {
    /// show this status line, or none where it is empty
    Status(String),
    /// draw the screen
    Paint,
    /// draw everything anew next time
    Invalidate,
    /// begin anew with guessing what keystrokes will show
    ResetPredictions,
    /// take back guesses that were not confirmed in time
    ExpirePredictions,
    /// guess what these bytes will show
    Predict(Vec<u8>),
    /// open a session
    Spawn { mode: Mode, cols: usize, rows: usize, gen: u64 },
    /// let a session go, giving control back first where it holds it, and kill
    /// it after a grace
    Stop { gen: u64, release: bool },
    /// let a session go at the end of the wrapper, giving control back first
    /// where it holds it
    Finish { gen: u64, release: bool },
    /// kill a session at once
    Kill { gen: u64 },
    /// write a line to the current session
    Send(String),
    /// ask the remote what runs in the foreground
    Poll,
    /// write to the local terminal
    Write(String),
    /// give the screen model a size
    ResizeGrid { width: usize, height: usize },
    /// empty the screen model
    ClearGrid,
    /// apply terminal output to the screen model, and hold the guesses against
    /// it
    Apply(String),
    /// print the screen model as text
    Dump { seq: Option<u64>, full: Option<bool>, width: usize, height: usize },
}

/// What an `Effect` says.
#[verifier::ext_equal]
pub enum EffectView {
    Status(Seq<char>),
    Paint,
    Invalidate,
    ResetPredictions,
    ExpirePredictions,
    Predict(Seq<u8>),
    Spawn { mode: Mode, cols: nat, rows: nat, gen: u64 },
    Stop { gen: u64, release: bool },
    Finish { gen: u64, release: bool },
    Kill { gen: u64 },
    Send(Seq<char>),
    Poll,
    Write(Seq<char>),
    ResizeGrid { width: nat, height: nat },
    ClearGrid,
    Apply(Seq<char>),
    Dump { seq: Option<u64>, full: Option<bool>, width: nat, height: nat },
}

impl View for Effect {
    type V = EffectView;

    open spec fn view(&self) -> EffectView {
        match self {
            Effect::Status(s) => EffectView::Status(s@),
            Effect::Paint => EffectView::Paint,
            Effect::Invalidate => EffectView::Invalidate,
            Effect::ResetPredictions => EffectView::ResetPredictions,
            Effect::ExpirePredictions => EffectView::ExpirePredictions,
            Effect::Predict(b) => EffectView::Predict(b@),
            Effect::Spawn { mode, cols, rows, gen } => EffectView::Spawn {
                mode: *mode,
                cols: *cols as nat,
                rows: *rows as nat,
                gen: *gen,
            },
            Effect::Stop { gen, release } => EffectView::Stop { gen: *gen, release: *release },
            Effect::Finish { gen, release } => EffectView::Finish { gen: *gen, release: *release },
            Effect::Kill { gen } => EffectView::Kill { gen: *gen },
            Effect::Send(s) => EffectView::Send(s@),
            Effect::Poll => EffectView::Poll,
            Effect::Write(s) => EffectView::Write(s@),
            Effect::ResizeGrid { width, height } => EffectView::ResizeGrid {
                width: *width as nat,
                height: *height as nat,
            },
            Effect::ClearGrid => EffectView::ClearGrid,
            Effect::Apply(s) => EffectView::Apply(s@),
            Effect::Dump { seq, full, width, height } => EffectView::Dump {
                seq: *seq,
                full: *full,
                width: *width as nat,
                height: *height as nat,
            },
        }
    }
}

/// What a list of effects says.
pub open spec fn effects(v: Seq<Effect>) -> Seq<EffectView> {
    v.map_values(|e: Effect| e@)
}

pub broadcast proof fn effects_push(v: Seq<Effect>, e: Effect)
    ensures
        #[trigger] effects(v.push(e)) == effects(v).push(e@),
{
    assert(effects(v.push(e)) =~= effects(v).push(e@));
}

// ---------------------------------------------------------------------------
// the state

/// What the state says.
#[verifier::ext_equal]
pub struct AppView {
    pub args: ArgsView,
    pub tty: bool,
    pub mode: Mode,
    pub switching_to: Option<Mode>,
    pub switch_at: Option<u128>,
    pub session: Option<Session>,
    pub next_gen: u64,
    pub backoff_idx: usize,
    pub reconnect_at: Option<(u128, Mode)>,
    pub control_failures: u32,
    pub control_sticky: bool,
    pub pending_input: Seq<Seq<u8>>,
    pub last_input: u128,
    pub hint_clear_at: Option<u128>,
    pub remote_is_shell: Option<bool>,
    pub fg_poll_at: Option<u128>,
    pub settle_at: Option<u128>,
    pub mouse_grabbed: bool,
    pub app_cursor_keys: bool,
}

/// Whether each buffer can be sent.
pub open spec fn all_encodable(waiting: Seq<Seq<u8>>) -> bool {
    forall|i: int| 0 <= i < waiting.len() ==> encodable((#[trigger] waiting[i]).len())
}

impl AppView {
    /// What holds of every state.
    pub open spec fn valid(self) -> bool {
        // a switch has its moment, and nothing else under way beside it
        &&& self.switching_to is Some <==> self.switch_at is Some
        &&& self.switching_to is Some ==> self.session is None && self.reconnect_at is None
        // a reconnect is only waited for without a session
        &&& self.reconnect_at is Some ==> self.session is None
        // the session is the last one that was opened, in the mode of the wrapper
        &&& self.session matches Some(session) ==> session.mode == self.mode && session.gen
            == self.next_gen
        // the second quick failure in a row is acted on at once
        &&& self.control_failures <= 1
        // the local terminal is in the modes that the remote foreground asks for
        &&& self.mouse_grabbed == (self.tty && self.remote_is_shell != Some(true))
        &&& self.app_cursor_keys == (self.tty && self.remote_is_shell == Some(false))
        // machine limits
        &&& all_encodable(self.pending_input)
        &&& self.last_input <= LATEST
    }

    /// Whether the pane is connected or on its way there.
    pub open spec fn under_way(self) -> bool {
        self.session is Some || self.switching_to is Some || self.reconnect_at is Some
    }
}

/// What follows an event: the next state, and what is to be done outside.
pub type Step = (AppView, Seq<EffectView>);

/// What the local terminal is taken over with: a screen of its own, empty, with
/// the mouse reported, so that wheel and clicks do not scroll the hosting pane.
pub open spec fn enter_text() -> Seq<char> {
    "\x1b[?1049h\x1b[2J\x1b[H\x1b[?1002h\x1b[?1006h"@
}

/// The wrapper begins.
pub open spec fn starting(args: ArgsView, tty: bool, now: u128) -> Step {
    (
        AppView {
            args,
            tty,
            mode: Mode::Observe,
            switching_to: None,
            switch_at: None,
            session: None,
            next_gen: 0,
            backoff_idx: 0,
            reconnect_at: None,
            control_failures: 0,
            control_sticky: false,
            pending_input: Seq::empty(),
            last_input: now,
            hint_clear_at: None,
            remote_is_shell: None,
            fg_poll_at: None,
            settle_at: None,
            mouse_grabbed: tty,
            app_cursor_keys: false,
        },
        if tty {
            seq![EffectView::Write(enter_text())]
        } else {
            Seq::empty()
        },
    )
}

/// Drawing the screen, where there is one.
pub open spec fn painting(s: AppView) -> Seq<EffectView> {
    if s.tty {
        seq![EffectView::Paint]
    } else {
        Seq::empty()
    }
}

/// Showing a hint for a while.
pub open spec fn hinting(s: AppView, text: Seq<char>, now: u128) -> Step {
    (
        AppView { hint_clear_at: Some((now + HINT_TIME) as u128), ..s },
        seq![EffectView::Status(text)] + painting(s),
    )
}

/// Whether the last poll of the remote foreground was a moment ago.
pub open spec fn polled_lately(s: AppView, now: u128) -> bool {
    s.fg_poll_at matches Some(last) && now - last < FG_POLL_INTERVAL
}

/// Polling the remote foreground, unless it was polled a moment ago.
pub open spec fn polling(s: AppView, force: bool, now: u128) -> Step {
    if !force && polled_lately(s, now) {
        (s, Seq::empty())
    } else {
        (AppView { fg_poll_at: Some(now), ..s }, seq![EffectView::Poll])
    }
}

/// What the mouse reports are switched on and off with.
pub open spec fn grab_text(on: bool) -> Seq<char> {
    if on {
        "\x1b[?1002h\x1b[?1006h"@
    } else {
        "\x1b[?1002l"@
    }
}

/// What application cursor mode is switched on and off with.
pub open spec fn cursor_text(on: bool) -> Seq<char> {
    if on {
        "\x1b[?1h"@
    } else {
        "\x1b[?1l"@
    }
}

/// Bringing the mouse reports into line with the remote foreground: off at a
/// shell, so that the local terminal selects and scrolls by itself.
pub open spec fn syncing_grab(s: AppView) -> Step {
    let want = s.remote_is_shell != Some(true);
    if !s.tty || want == s.mouse_grabbed {
        (s, Seq::empty())
    } else {
        (AppView { mouse_grabbed: want, ..s }, seq![EffectView::Write(grab_text(want))])
    }
}

/// Bringing the cursor key mode into line with the remote foreground:
/// application mode for a full-screen program, so that arrows arrive in the form
/// that it expects.
pub open spec fn syncing_cursor(s: AppView) -> Step {
    let want = s.remote_is_shell == Some(false);
    if !s.tty || want == s.app_cursor_keys {
        (s, Seq::empty())
    } else {
        (AppView { app_cursor_keys: want, ..s }, seq![EffectView::Write(cursor_text(want))])
    }
}

/// The answer to a poll of the remote foreground. An answer that says nothing
/// leaves the last one standing.
pub open spec fn classifying(s: AppView, answer: Option<bool>) -> Step {
    if answer is None {
        (s, Seq::empty())
    } else {
        let grabbed = syncing_grab(AppView { remote_is_shell: answer, ..s });
        let done = syncing_cursor(grabbed.0);
        (done.0, grabbed.1 + done.1)
    }
}

/// The larger of two sizes.
pub open spec fn larger(a: nat, b: nat) -> nat {
    if a >= b {
        a
    } else {
        b
    }
}

/// The size that a read-only session asks for. It has to be no smaller than the
/// remote terminal, or the remote would clip it.
pub open spec fn observed_size(s: AppView, term: (usize, usize)) -> (nat, nat) {
    if s.args.size_fixed || !s.tty {
        (s.args.cols, s.args.rows)
    } else {
        (larger(s.args.cols, term.0 as nat), larger(s.args.rows, term.1 as nat))
    }
}

/// Letting go of the session that there may be.
pub open spec fn stopping(s: AppView) -> Seq<EffectView> {
    match s.session {
        Some(session) => seq![
            EffectView::Stop { gen: session.gen, release: session.mode == Mode::Control },
        ],
        None => Seq::empty(),
    }
}

/// Whether the wrapper is in this mode to stay, or on its way there.
pub open spec fn heading_for(s: AppView, m: Mode) -> bool {
    match s.switching_to {
        Some(next) => next == m,
        None => s.mode == m,
    }
}

/// Beginning to switch to a mode, unless that is where the wrapper is or is
/// going.
pub open spec fn switching(s: AppView, m: Mode, now: u128) -> Step {
    if heading_for(s, m) {
        (s, Seq::empty())
    } else {
        (
            AppView {
                reconnect_at: None,
                switching_to: Some(m),
                session: None,
                switch_at: Some((now + SWITCH_GAP) as u128),
                ..s
            },
            stopping(s) + seq![
                EffectView::Invalidate,
                EffectView::Status(
                    if m == Mode::Control {
                        "taking control…"@
                    } else {
                        "releasing…"@
                    },
                ),
            ] + painting(s),
        )
    }
}

/// `text` between `before` and `after`, where there is any text.
pub open spec fn suffixed(before: Seq<char>, text: Seq<char>, after: Seq<char>) -> Seq<char> {
    if text.len() == 0 {
        Seq::empty()
    } else {
        before + text + after
    }
}

/// What the status line says of a coming reconnect.
pub open spec fn reconnect_status(millis: u64, m: Mode, reason: Seq<char>) -> Seq<char> {
    "reconnecting in "@ + decimal((millis / 1000) as nat) + "s ("@ + m.name() + ")"@ + suffixed(
        " — "@,
        reason,
        Seq::empty(),
    )
}

/// Waiting for a reconnect, longer each time in a row.
pub open spec fn rescheduling(s: AppView, m: Mode, reason: Seq<char>, now: u128) -> Step {
    let millis = backoff_millis(s.backoff_idx as nat);
    (
        AppView {
            backoff_idx: if s.backoff_idx < usize::MAX {
                (s.backoff_idx + 1) as usize
            } else {
                s.backoff_idx
            },
            reconnect_at: Some(((now + millis * MILLI) as u128, m)),
            ..s
        },
        seq![EffectView::Status(reconnect_status(millis, m, reason))] + painting(s),
    )
}

/// Opening a session. The one before it, if it is still there, is killed.
pub open spec fn connecting(s: AppView, m: Mode, term: (usize, usize)) -> Step {
    let size = match m {
        Mode::Observe => observed_size(s, term),
        Mode::Control => (term.0 as nat, term.1 as nat),
    };
    let gen = (s.next_gen + 1) as u64;
    (
        AppView { mode: m, session: None, next_gen: gen, ..s },
        seq![EffectView::ResetPredictions] + (match s.session {
            Some(session) => seq![EffectView::Kill { gen: session.gen }],
            None => Seq::empty(),
        }) + seq![EffectView::Spawn { mode: m, cols: size.0, rows: size.1, gen }],
    )
}

/// Sending each buffer as input, in order.
pub open spec fn sending_input(waiting: Seq<Seq<u8>>) -> Seq<EffectView> {
    waiting.map_values(|bytes: Seq<u8>| EffectView::Send(input_line_of(bytes)))
}

/// The session was opened. Input that waited for a writable one is sent now.
pub open spec fn connected(s: AppView, now: u128) -> Step {
    let control = s.mode == Mode::Control;
    let up = AppView {
        session: Some(Session { gen: s.next_gen, mode: s.mode }),
        pending_input: Seq::empty(),
        last_input: if control {
            now
        } else {
            s.last_input
        },
        ..s
    };
    let polled = polling(up, false, now);
    let flushed = if control {
        sending_input(s.pending_input)
    } else {
        Seq::empty()
    };
    (
        polled.0,
        flushed + polled.1 + seq![
            EffectView::Status(
                if control && !s.args.always_control {
                    "CONTROL — ctrl+\\ to release"@
                } else {
                    Seq::empty()
                },
            ),
        ],
    )
}

/// Whether the wrapper's session has this number.
pub open spec fn is_current(s: AppView, gen: u64) -> bool {
    s.session matches Some(session) && session.gen == gen
}

/// A message from session `gen`; `text` is the terminal output that it carries,
/// where that can be decoded, and `grid` the size of the screen model.
pub open spec fn showing(
    s: AppView,
    gen: u64,
    frame: Frame,
    text: Option<Seq<char>>,
    grid: (usize, usize),
) -> Step {
    if !is_current(s, gen) {
        (s, Seq::empty())
    } else if frame.kind@ == "terminal.closed"@ {
        let why = match optional_text(frame.reason) {
            Some(reason) => ": "@ + reason,
            None => Seq::empty(),
        };
        (s, seq![EffectView::Status("remote terminal closed"@ + why)] + painting(s))
    } else if frame.kind@ != "terminal.frame"@ || frame.bytes is None {
        (s, Seq::empty())
    } else {
        let width = match frame.width {
            Some(w) => w,
            None => grid.0,
        };
        let height = match frame.height {
            Some(h) => h,
            None => grid.1,
        };
        let sized = seq![
            EffectView::Status(Seq::empty()),
            EffectView::ResizeGrid { width: width as nat, height: height as nat },
        ];
        let cleared = if frame.full == Some(true) {
            seq![EffectView::ClearGrid]
        } else {
            Seq::empty()
        };
        let applied = match text {
            Some(t) => seq![EffectView::Apply(t)],
            None => Seq::empty(),
        };
        let drawn = if s.args.dump {
            seq![
                EffectView::Dump {
                    seq: frame.seq,
                    full: frame.full,
                    width: (match frame.width {
                        Some(w) => w as nat,
                        None => 0,
                    }),
                    height: (match frame.height {
                        Some(h) => h as nat,
                        None => 0,
                    }),
                },
            ]
        } else {
            painting(s)
        };
        (AppView { backoff_idx: 0, ..s }, sized + cleared + applied + drawn)
    }
}

/// The last line of `text` that is not blank, trimmed; or nothing.
pub open spec fn last_words(text: Seq<Seq<char>>) -> Seq<char>
    decreases text.len(),
{
    if text.len() == 0 {
        Seq::empty()
    } else if trimmed(text.last()).len() > 0 {
        trimmed(text.last())
    } else {
        last_words(text.drop_last())
    }
}

/// Session `gen`, of this mode, has ended for a reason after some time. A
/// writable session that fails quickly twice in a row is given up for a
/// read-only one, so that the pane stays viewable.
pub open spec fn exiting(
    s: AppView,
    gen: u64,
    exited: Mode,
    reason: Seq<char>,
    uptime: u128,
    now: u128,
) -> Step {
    let why = last_words(lines_of(reason));
    let failures = if uptime < QUICK_CONTROL_FAILURE {
        (s.control_failures + 1) as u32
    } else {
        0
    };
    if !is_current(s, gen) {
        (s, Seq::empty())
    } else if exited == Mode::Control && failures >= 2 {
        let switched = switching(
            AppView { session: None, control_failures: 0, control_sticky: true, ..s },
            Mode::Observe,
            now,
        );
        let hinted = hinting(
            switched.0,
            "control unavailable — viewing only"@ + suffixed(" ("@, why, ")"@) + "; type to retry"@,
            now,
        );
        (hinted.0, switched.1 + hinted.1)
    } else {
        let gone = AppView {
            session: None,
            control_failures: if exited == Mode::Control {
                failures
            } else {
                s.control_failures
            },
            ..s
        };
        rescheduling(gone, exited, why, now)
    }
}

/// Whether input is the key that gives control back.
pub open spec fn is_release_key(buf: Seq<u8>) -> bool {
    buf.len() == 1 && buf[0] == 0x1c
}

/// Input while the pane is read-only, or about to be. Any keystroke takes
/// control and is kept until it is there; the wheel takes control back only
/// after it was given up without the user's doing.
pub open spec fn typing_read_only(s: AppView, buf: Seq<u8>, now: u128) -> Step {
    if !holds_marker(buf) {
        switching(
            AppView { control_sticky: false, pending_input: s.pending_input.push(buf), ..s },
            Mode::Control,
            now,
        )
    } else if !holds_wheel_press(pieces(buf, 0)) {
        (s, Seq::empty())
    } else if s.control_sticky {
        switching(AppView { control_sticky: false, ..s }, Mode::Control, now)
    } else {
        hinting(s, "read-only — type to take control"@, now)
    }
}

/// Sending each scroll, in order.
pub open spec fn sending_scrolls(found: Seq<Scroll>) -> Seq<EffectView> {
    found.map_values(|scroll: Scroll| EffectView::Send(scroll_line_of(scroll)))
}

/// Forwarding input to the writable session.
pub open spec fn forwarding(s: AppView, buf: Seq<u8>, now: u128) -> Step {
    let polled = polling(AppView { last_input: now, ..s }, false, now);
    let rest = forwarded(pieces(buf, 0), s.remote_is_shell);
    (
        AppView { settle_at: Some((now + SETTLE_DELAY) as u128), ..polled.0 },
        polled.1 + sending_scrolls(scrolls(pieces(buf, 0))) + (if rest.len() == 0 {
            Seq::empty()
        } else {
            seq![EffectView::Send(input_line_of(rest)), EffectView::Predict(rest)]
        }),
    )
}

/// Input from the local terminal.
pub open spec fn typing(s: AppView, buf: Seq<u8>, now: u128) -> Step {
    if s.mode == Mode::Observe || s.switching_to == Some(Mode::Observe) {
        typing_read_only(s, buf, now)
    } else if is_release_key(buf) {
        if s.args.always_control {
            (AppView { last_input: now, ..s }, Seq::empty())
        } else {
            switching(
                AppView { last_input: now, control_sticky: false, ..s },
                Mode::Observe,
                now,
            )
        }
    } else if s.switching_to == Some(Mode::Control) || s.session is None {
        (
            AppView {
                last_input: now,
                pending_input: s.pending_input.push(buf),
                reconnect_at: match s.reconnect_at {
                    Some((_, m)) => Some((now, m)),
                    None => None,
                },
                ..s
            },
            Seq::empty(),
        )
    } else {
        forwarding(s, buf, now)
    }
}

/// The local terminal was resized. That takes someone who watches it, so a pane
/// that is meant for control takes control now; unless control was refused,
/// which a window being dragged must not turn into a storm of attempts.
pub open spec fn resizing(s: AppView, term: (usize, usize), now: u128) -> Step {
    let promoted = if s.args.always_control && s.mode == Mode::Observe && !s.control_sticky {
        switching(s, Mode::Control, now)
    } else {
        (s, Seq::empty())
    };
    let told = if promoted.0.mode == Mode::Control && promoted.0.session is Some {
        seq![EffectView::Send(resize_line_of(term.0 as nat, term.1 as nat))]
    } else {
        Seq::empty()
    };
    (promoted.0, seq![EffectView::Invalidate] + promoted.1 + told + painting(s))
}

/// The first session was asked for. The pane may have got its size meanwhile.
pub open spec fn settling_in(s: AppView, term: (usize, usize), now: u128) -> Step {
    if s.mode == Mode::Observe && opening_mode(s.args.always_control, term) == Mode::Control {
        switching(s, Mode::Control, now)
    } else if s.mode == Mode::Observe && s.args.always_control {
        hinting(s, "read-only until this pane is sized — type to take control"@, now)
    } else {
        (s, Seq::empty())
    }
}

/// Whether a moment that may be set has come.
pub open spec fn is_due(at: Option<u128>, now: u128) -> bool {
    at matches Some(t) && t <= now
}

/// When control is given back for want of input, if it ever is.
pub open spec fn idle_moment(s: AppView) -> Option<u128> {
    if s.mode == Mode::Control && s.switching_to is None && s.session is Some
        && !s.args.always_control && s.args.control_idle_secs > 0 {
        Some((s.last_input + s.args.control_idle_secs * SECOND) as u128)
    } else {
        None
    }
}

/// The mode to connect in because a switch is due, and the state then.
pub open spec fn switch_due(s: AppView, now: u128) -> (AppView, Option<Mode>) {
    if is_due(s.switch_at, now) {
        (AppView { switch_at: None, switching_to: None, ..s }, s.switching_to)
    } else {
        (s, None)
    }
}

/// The mode to connect in because a reconnect is due, and the state then.
pub open spec fn reconnect_due(s: AppView, now: u128) -> (AppView, Option<Mode>) {
    match s.reconnect_at {
        Some((t, m)) if t <= now => (AppView { reconnect_at: None, ..s }, Some(m)),
        _ => (s, None),
    }
}

/// The hint has been shown long enough.
pub open spec fn clearing_hint(s: AppView, now: u128) -> Step {
    if is_due(s.hint_clear_at, now) {
        (
            AppView { hint_clear_at: None, ..s },
            seq![EffectView::Status(Seq::empty())] + painting(s),
        )
    } else {
        (s, Seq::empty())
    }
}

/// Nothing was typed for long enough.
pub open spec fn releasing_idle(s: AppView, idle_at: Option<u128>, now: u128) -> Step {
    if is_due(idle_at, now) && s.mode == Mode::Control && s.switching_to is None {
        let switched = switching(AppView { control_sticky: true, ..s }, Mode::Observe, now);
        let hinted = hinting(switched.0, "control released (idle) — type to retake"@, now);
        (hinted.0, switched.1 + hinted.1)
    } else {
        (s, Seq::empty())
    }
}

/// Input has settled.
pub open spec fn polling_settled(s: AppView, now: u128) -> Step {
    if is_due(s.settle_at, now) {
        polling(AppView { settle_at: None, ..s }, true, now)
    } else {
        (s, Seq::empty())
    }
}

/// What else is due at a moment, once the connections that were due are made:
/// the hint, then control, then the poll after input.
pub open spec fn ticking(s: AppView, idle_at: Option<u128>, now: u128) -> Step {
    let cleared = clearing_hint(s, now);
    let released = releasing_idle(cleared.0, idle_at, now);
    let settled = polling_settled(released.0, now);
    (settled.0, cleared.1 + released.1 + settled.1)
}

/// Taking back guesses that were not confirmed in time.
pub open spec fn expiring(s: AppView, prediction_at: Option<u128>, now: u128) -> Seq<EffectView> {
    if is_due(prediction_at, now) {
        seq![EffectView::ExpirePredictions] + painting(s)
    } else {
        Seq::empty()
    }
}

/// How far the wrapper has got with what is due at a moment. What is done in one
/// stage is done outside before the next one begins.
#[derive(Debug, Clone, Copy, PartialEq, Eq, Structural)]
pub enum WakeStage {
    /// a switch may be due
    Switch,
    /// a reconnect may be due
    Reconnect,
    /// the hint, control and the poll after input may be due
    Timers,
    /// guesses may have to be taken back
    Guesses,
    /// nothing is left to be done
    Done,
}

/// Asking for a session where one is due.
pub open spec fn asking(due: (AppView, Option<Mode>), term: (usize, usize)) -> Step {
    match due.1 {
        Some(m) => connecting(due.0, m, term),
        None => (due.0, Seq::empty()),
    }
}

/// One stage of what is due at a moment, and the stage that follows it: first a
/// switch, then a reconnect, then the other timers, and guesses last.
pub open spec fn wake_step(
    s: AppView,
    stage: WakeStage,
    term: (usize, usize),
    idle_at: Option<u128>,
    prediction_at: Option<u128>,
    now: u128,
) -> (Step, WakeStage) {
    match stage {
        WakeStage::Switch => (asking(switch_due(s, now), term), WakeStage::Reconnect),
        WakeStage::Reconnect => (asking(reconnect_due(s, now), term), WakeStage::Timers),
        WakeStage::Timers => (ticking(s, idle_at, now), WakeStage::Guesses),
        WakeStage::Guesses => ((s, expiring(s, prediction_at, now)), WakeStage::Done),
        WakeStage::Done => ((s, Seq::empty()), WakeStage::Done),
    }
}

/// The mode to connect in at a stage, if a connection is due there.
pub open spec fn due_at(s: AppView, stage: WakeStage, now: u128) -> Option<Mode> {
    match stage {
        WakeStage::Switch => switch_due(s, now).1,
        WakeStage::Reconnect => reconnect_due(s, now).1,
        _ => None,
    }
}

/// What leaves the local terminal as it was found.
pub open spec fn leave_text() -> Seq<char> {
    "\x1b[?1002l\x1b[?1006l\x1b[?1l\x1b[?25h\x1b[?1049l"@
}

/// The wrapper ends: it lets its session go and puts the terminal back.
pub open spec fn leaving(s: AppView) -> Step {
    (
        AppView { session: None, ..s },
        (match s.session {
            Some(session) => seq![
                EffectView::Finish { gen: session.gen, release: session.mode == Mode::Control },
            ],
            None => Seq::empty(),
        }) + (if s.tty {
            seq![EffectView::Write(leave_text())]
        } else {
            Seq::empty()
        }),
    )
}

/// The earlier of two moments that may be set.
pub open spec fn earlier(a: Option<u128>, b: Option<u128>) -> Option<u128> {
    match (a, b) {
        (Some(x), Some(y)) => if x <= y {
            a
        } else {
            b
        },
        (Some(_), None) => a,
        (None, _) => b,
    }
}

/// When something is due next, if anything is: a switch, a reconnect, the end of
/// a hint, the release of control, the end of a guess, the poll after input.
pub open spec fn next_moment(
    s: AppView,
    idle_at: Option<u128>,
    prediction_at: Option<u128>,
) -> Option<u128> {
    let reconnect = match s.reconnect_at {
        Some((t, _)) => Some(t),
        None => None,
    };
    earlier(
        s.switch_at,
        earlier(
            reconnect,
            earlier(s.hint_clear_at, earlier(idle_at, earlier(prediction_at, s.settle_at))),
        ),
    )
}

// ---------------------------------------------------------------------------
// what effects say

/// An effect says what it holds, each thing in its place.
pub proof fn effects_say_what_they_hold(
    mode: Mode,
    cols: usize,
    rows: usize,
    gen: u64,
    flag: bool,
    text: String,
    bytes: Vec<u8>,
    seq: Option<u64>,
    full: Option<bool>,
)
    ensures
        (Effect::Spawn { mode, cols, rows, gen })@ == (EffectView::Spawn {
            mode,
            cols: cols as nat,
            rows: rows as nat,
            gen,
        }),
        (Effect::Stop { gen, release: flag })@ == (EffectView::Stop { gen, release: flag }),
        (Effect::Finish { gen, release: flag })@ == (EffectView::Finish { gen, release: flag }),
        (Effect::Kill { gen })@ == (EffectView::Kill { gen }),
        (Effect::ResizeGrid { width: cols, height: rows })@ == (EffectView::ResizeGrid {
            width: cols as nat,
            height: rows as nat,
        }),
        (Effect::Dump { seq, full, width: cols, height: rows })@ == (EffectView::Dump {
            seq,
            full,
            width: cols as nat,
            height: rows as nat,
        }),
        Effect::Status(text)@ == EffectView::Status(text@),
        Effect::Send(text)@ == EffectView::Send(text@),
        Effect::Write(text)@ == EffectView::Write(text@),
        Effect::Apply(text)@ == EffectView::Apply(text@),
        Effect::Predict(bytes)@ == EffectView::Predict(bytes@),
        Effect::Paint@ == EffectView::Paint,
        Effect::Invalidate@ == EffectView::Invalidate,
        Effect::ResetPredictions@ == EffectView::ResetPredictions,
        Effect::ExpirePredictions@ == EffectView::ExpirePredictions,
        Effect::Poll@ == EffectView::Poll,
        Effect::ClearGrid@ == EffectView::ClearGrid,
{
}

} // verus!
