//! The pane wrapper: one owner of all state, driven by what happens to it.
//!
//! Every handler takes an event, changes the state and appends to `out` what is
//! to be done outside, in order. The module `state` says what follows from what.

use vstd::prelude::*;
use vstd::utf8::encode_utf8;

use crate::args::{optional_text, Args};
use crate::encoding::{base64_bytes, base64_of, encoded_bytes_are_read_back};
use crate::mode::{initial_mode, opening_mode, Mode};
use crate::mouse::{contains_wheel_press, has_mouse_seq, route_input};
use crate::outside::{base64_decode, encodable, from_utf8_lossy, shown};
use crate::state::{
    all_encodable, backoff_millis, classifying, clearing_hint, connected, connecting, due_at,
    earlier, effects, effects_push, exiting, expiring, forwarding, hinting, idle_moment, is_due, last_words, leaving,
    next_moment, observed_size, painting, polling, polling_settled, reconnect_due,
    reconnect_status, releasing_idle, rescheduling, resizing, sending_input, sending_scrolls,
    settling_in, showing, starting, stopping, switch_due, switching, syncing_cursor,
    syncing_grab, ticking, typing, typing_read_only, wake_step, AppView, Effect, EffectView,
    Session, WakeStage,
    FG_POLL_INTERVAL, HINT_TIME, LATEST, MILLI, QUICK_CONTROL_FAILURE, SECOND, SETTLE_DELAY,
    SWITCH_GAP,
};
use crate::text::{decimal_text, join2, join3, lines, lines_of, same_text, texts, trim};
use crate::wire::{input_line, resize_line, scroll_line, Frame};

verus! {

/// The state of the wrapper.
pub struct App {
    pub args: Args,
    /// the output is a terminal that is drawn on
    pub tty: bool,
    pub mode: Mode,
    /// the mode that a switch under way leads to
    pub switching_to: Option<Mode>,
    /// when the switch under way opens its session
    pub switch_at: Option<u128>,
    pub session: Option<Session>,
    /// the number of the last session
    pub next_gen: u64,
    pub backoff_idx: usize,
    pub reconnect_at: Option<(u128, Mode)>,
    /// writable sessions that failed quickly, in a row
    pub control_failures: u32,
    /// control was given up, and what the user does next may take it back
    pub control_sticky: bool,
    /// input that waits for a writable session
    pub pending_input: Vec<Vec<u8>>,
    pub last_input: u128,
    pub hint_clear_at: Option<u128>,
    /// a shell runs in the remote foreground, or a full-screen program does, or
    /// it is not known
    pub remote_is_shell: Option<bool>,
    pub fg_poll_at: Option<u128>,
    pub settle_at: Option<u128>,
    /// the local terminal reports the mouse
    pub mouse_grabbed: bool,
    /// the local terminal is in application cursor mode
    pub app_cursor_keys: bool,
}

/// The buffers of waiting input.
pub open spec fn buffers(v: Seq<Vec<u8>>) -> Seq<Seq<u8>> {
    v.map_values(|b: Vec<u8>| b@)
}

impl View for App {
    type V = AppView;

    open spec fn view(&self) -> AppView {
        AppView {
            args: self.args@,
            tty: self.tty,
            mode: self.mode,
            switching_to: self.switching_to,
            switch_at: self.switch_at,
            session: self.session,
            next_gen: self.next_gen,
            backoff_idx: self.backoff_idx,
            reconnect_at: self.reconnect_at,
            control_failures: self.control_failures,
            control_sticky: self.control_sticky,
            pending_input: buffers(self.pending_input@),
            last_input: self.last_input,
            hint_clear_at: self.hint_clear_at,
            remote_is_shell: self.remote_is_shell,
            fg_poll_at: self.fg_poll_at,
            settle_at: self.settle_at,
            mouse_grabbed: self.mouse_grabbed,
            app_cursor_keys: self.app_cursor_keys,
        }
    }
}

fn backoff(n: usize) -> (millis: u64)
    ensures
        millis == backoff_millis(n as nat),
{
    if n == 0 {
        1000
    } else if n == 1 {
        2000
    } else if n == 2 {
        5000
    } else {
        10000
    }
}

impl App {
    /// The wrapper begins.
    pub fn new(args: Args, tty: bool, now: u128, out: &mut Vec<Effect>) -> (app: App)
        requires
            now <= LATEST,
        ensures
            app@ == starting(args@, tty, now).0,
            effects(final(out)@) == effects(old(out)@) + starting(args@, tty, now).1,
            app@.valid(),
    {
        broadcast use effects_push;

        if tty {
            out.push(
                Effect::Write("\x1b[?1049h\x1b[2J\x1b[H\x1b[?1002h\x1b[?1006h".to_owned()),
            );
        }
        let app = App {
            args,
            tty,
            mode: Mode::Observe,
            switching_to: None,
            switch_at: None,
            session: None,
            next_gen: 0,
            backoff_idx: 0,
            reconnect_at: None,
            control_failures: 0,
            control_sticky: false,
            pending_input: Vec::new(),
            last_input: now,
            hint_clear_at: None,
            remote_is_shell: None,
            fg_poll_at: None,
            settle_at: None,
            mouse_grabbed: tty,
            app_cursor_keys: false,
        };
        assert(buffers(app.pending_input@) =~= Seq::empty());
        assert(effects(out@) =~= effects(old(out)@) + starting(app.args@, tty, now).1);
        app
    }

    /// Draws the screen, where there is one.
    pub fn paint(&self, out: &mut Vec<Effect>)
        ensures
            effects(final(out)@) == effects(old(out)@) + painting(self@),
    {
        broadcast use effects_push;

        if self.tty {
            out.push(Effect::Paint);
        }
        assert(effects(out@) =~= effects(old(out)@) + painting(self@));
    }

    /// Shows a hint for a while.
    pub fn hint(&mut self, text: &str, now: u128, out: &mut Vec<Effect>)
        requires
            now <= LATEST,
        ensures
            final(self)@ == hinting(old(self)@, text@, now).0,
            effects(final(out)@) == effects(old(out)@) + hinting(old(self)@, text@, now).1,
            old(self)@.valid() ==> final(self)@.valid(),
    {
        broadcast use effects_push;

        out.push(Effect::Status(text.to_owned()));
        self.paint(out);
        self.hint_clear_at = Some(now + HINT_TIME);
        assert(effects(out@) =~= effects(old(out)@) + hinting(old(self)@, text@, now).1);
    }

    /// Polls the remote foreground, unless that was done a moment ago and this
    /// poll is not forced.
    pub fn spawn_foreground_poll(&mut self, force: bool, now: u128, out: &mut Vec<Effect>)
        ensures
            final(self)@ == polling(old(self)@, force, now).0,
            effects(final(out)@) == effects(old(out)@) + polling(old(self)@, force, now).1,
            old(self)@.valid() ==> final(self)@.valid(),
    {
        broadcast use effects_push;

        if !force {
            if let Some(last) = self.fg_poll_at {
                if now < last || now - last < FG_POLL_INTERVAL {
                    assert(effects(out@) =~= effects(old(out)@) + Seq::<EffectView>::empty());
                    return;
                }
            }
        }
        self.fg_poll_at = Some(now);
        out.push(Effect::Poll);
        assert(effects(out@) =~= effects(old(out)@) + seq![EffectView::Poll]);
    }

    /// Brings the mouse reports into line with the remote foreground.
    pub fn sync_mouse_grab(&mut self, out: &mut Vec<Effect>)
        ensures
            final(self)@ == syncing_grab(old(self)@).0,
            effects(final(out)@) == effects(old(out)@) + syncing_grab(old(self)@).1,
    {
        broadcast use effects_push;

        let want = match self.remote_is_shell {
            Some(shell) => !shell,
            None => true,
        };
        if self.tty && want != self.mouse_grabbed {
            self.mouse_grabbed = want;
            out.push(
                Effect::Write(
                    if want {
                        "\x1b[?1002h\x1b[?1006h".to_owned()
                    } else {
                        "\x1b[?1002l".to_owned()
                    },
                ),
            );
        }
        assert(effects(out@) =~= effects(old(out)@) + syncing_grab(old(self)@).1);
    }

    /// Brings the cursor key mode into line with the remote foreground.
    pub fn sync_cursor_key_mode(&mut self, out: &mut Vec<Effect>)
        ensures
            final(self)@ == syncing_cursor(old(self)@).0,
            effects(final(out)@) == effects(old(out)@) + syncing_cursor(old(self)@).1,
    {
        broadcast use effects_push;

        let want = match self.remote_is_shell {
            Some(shell) => !shell,
            None => false,
        };
        if self.tty && want != self.app_cursor_keys {
            self.app_cursor_keys = want;
            out.push(
                Effect::Write(
                    if want {
                        "\x1b[?1h".to_owned()
                    } else {
                        "\x1b[?1l".to_owned()
                    },
                ),
            );
        }
        assert(effects(out@) =~= effects(old(out)@) + syncing_cursor(old(self)@).1);
    }

    /// The answer to a poll of the remote foreground.
    pub fn handle_foreground(&mut self, answer: Option<bool>, out: &mut Vec<Effect>)
        requires
            old(self)@.valid(),
        ensures
            final(self)@ == classifying(old(self)@, answer).0,
            effects(final(out)@) == effects(old(out)@) + classifying(old(self)@, answer).1,
            final(self)@.valid(),
    {
        if answer.is_some() {
            self.remote_is_shell = answer;
            self.sync_mouse_grab(out);
            self.sync_cursor_key_mode(out);
        }
        assert(effects(out@) =~= effects(old(out)@) + classifying(old(self)@, answer).1);
    }

    /// The size that a read-only session asks for.
    pub fn observe_size(&self, term: (usize, usize)) -> (size: (usize, usize))
        ensures
            (size.0 as nat, size.1 as nat) == observed_size(self@, term),
    {
        if self.args.size_fixed || !self.tty {
            return (self.args.cols, self.args.rows);
        }
        let cols = if self.args.cols >= term.0 {
            self.args.cols
        } else {
            term.0
        };
        let rows = if self.args.rows >= term.1 {
            self.args.rows
        } else {
            term.1
        };
        (cols, rows)
    }

    /// Lets go of the session that there may be: no orphan is left holding the
    /// remote terminal.
    pub fn stop_session(&mut self, out: &mut Vec<Effect>)
        ensures
            final(self)@ == (AppView { session: None, ..old(self)@ }),
            effects(final(out)@) == effects(old(out)@) + stopping(old(self)@),
            old(self)@.valid() ==> final(self)@.valid(),
    {
        broadcast use effects_push;

        if let Some(session) = self.session {
            self.session = None;
            out.push(Effect::Stop { gen: session.gen, release: session.mode == Mode::Control });
        }
        assert(effects(out@) =~= effects(old(out)@) + stopping(old(self)@));
    }

    /// Begins to switch to a mode, unless that is where the wrapper is or is
    /// going: fast typing during a switch must not open a session per key.
    pub fn switch_mode(&mut self, m: Mode, now: u128, out: &mut Vec<Effect>)
        requires
            old(self)@.valid(),
            now <= LATEST,
        ensures
            final(self)@ == switching(old(self)@, m, now).0,
            effects(final(out)@) == effects(old(out)@) + switching(old(self)@, m, now).1,
            final(self)@.valid(),
    {
        broadcast use effects_push;

        let settled = match self.switching_to {
            Some(next) => next == m,
            None => self.mode == m,
        };
        if settled {
            assert(effects(out@) =~= effects(old(out)@) + Seq::<EffectView>::empty());
            return;
        }
        self.reconnect_at = None;
        self.switching_to = Some(m);
        self.stop_session(out);
        out.push(Effect::Invalidate);
        out.push(
            Effect::Status(
                if m == Mode::Control {
                    "taking control…".to_owned()
                } else {
                    "releasing…".to_owned()
                },
            ),
        );
        self.paint(out);
        self.switch_at = Some(now + SWITCH_GAP);
        assert(effects(out@) =~= effects(old(out)@) + switching(old(self)@, m, now).1);
    }

    /// Waits for a reconnect, longer each time in a row.
    pub fn schedule_reconnect(
        &mut self,
        m: Mode,
        reason: &str,
        now: u128,
        out: &mut Vec<Effect>,
    )
        requires
            now <= LATEST,
        ensures
            final(self)@ == rescheduling(old(self)@, m, reason@, now).0,
            effects(final(out)@) == effects(old(out)@) + rescheduling(
                old(self)@,
                m,
                reason@,
                now,
            ).1,
            old(self)@.valid() && !old(self)@.under_way() ==> final(self)@.valid(),
    {
        broadcast use effects_push;

        let millis = backoff(self.backoff_idx);
        if self.backoff_idx < usize::MAX {
            self.backoff_idx = self.backoff_idx + 1;
        }
        let secs = decimal_text(millis / 1000);
        let mut status = join3("reconnecting in ", secs.as_str(), "s (");
        status.append(m.as_str());
        status.append(")");
        if !reason.is_empty() {
            status.append(" — ");
            status.append(reason);
        }
        assert(status@ =~= reconnect_status(millis, m, reason@));
        out.push(Effect::Status(status));
        self.paint(out);
        self.reconnect_at = Some((now + millis as u128 * MILLI, m));
        assert(effects(out@) =~= effects(old(out)@) + rescheduling(
            old(self)@,
            m,
            reason@,
            now,
        ).1);
    }

    /// Asks for a session in this mode. `session_up` or `session_failed` tells
    /// what came of it.
    pub fn connect(&mut self, m: Mode, term: (usize, usize), out: &mut Vec<Effect>)
        requires
            old(self)@.valid(),
            old(self)@.next_gen < u64::MAX,
        ensures
            final(self)@ == connecting(old(self)@, m, term).0,
            effects(final(out)@) == effects(old(out)@) + connecting(old(self)@, m, term).1,
            final(self)@.valid(),
            final(self)@.under_way() <==> old(self)@.switching_to is Some
                || old(self)@.reconnect_at is Some,
    {
        broadcast use effects_push;

        self.mode = m;
        out.push(Effect::ResetPredictions);
        let (cols, rows) = match m {
            Mode::Observe => self.observe_size(term),
            Mode::Control => term,
        };
        if let Some(session) = self.session {
            self.session = None;
            out.push(Effect::Kill { gen: session.gen });
        }
        self.next_gen = self.next_gen + 1;
        out.push(Effect::Spawn { mode: m, cols, rows, gen: self.next_gen });
        assert(effects(out@) =~= effects(old(out)@) + connecting(old(self)@, m, term).1);
    }

    /// The session that was asked for is there. Input that waited for a writable
    /// one is sent now, in order.
    pub fn session_up(&mut self, now: u128, out: &mut Vec<Effect>)
        requires
            old(self)@.valid(),
            !old(self)@.under_way(),
            now <= LATEST,
        ensures
            final(self)@ == connected(old(self)@, now).0,
            effects(final(out)@) == effects(old(out)@) + connected(old(self)@, now).1,
            final(self)@.valid(),
            final(self)@.under_way(),
    {
        broadcast use effects_push;

        let control = self.mode == Mode::Control;
        let ghost waiting = buffers(self.pending_input@);
        if control {
            self.last_input = now;
            let mut i: usize = 0;
            assert(effects(out@) =~= effects(old(out)@) + sending_input(waiting.take(0)));
            while i < self.pending_input.len()
                invariant
                    i <= self.pending_input@.len(),
                    waiting == buffers(self.pending_input@),
                    all_encodable(waiting),
                    effects(out@) == effects(old(out)@) + sending_input(waiting.take(i as int)),
                decreases self.pending_input@.len() - i,
            {
                assert(encodable(waiting[i as int].len()));
                let ghost sent = effects(out@);
                let line = input_line(self.pending_input[i].as_slice());
                out.push(Effect::Send(line));
                assert(effects(out@) == sent.push(EffectView::Send(line@)));
                assert(sending_input(waiting.take(i + 1)) =~= sending_input(
                    waiting.take(i as int),
                ).push(effects(out@).last()));
                assert(effects(out@) =~= effects(old(out)@) + sending_input(waiting.take(i + 1)));
                i += 1;
            }
            assert(waiting.take(i as int) =~= waiting);
        }
        self.pending_input = Vec::new();
        assert(buffers(self.pending_input@) =~= Seq::empty());
        self.session = Some(Session { gen: self.next_gen, mode: self.mode });
        self.spawn_foreground_poll(false, now, out);
        out.push(
            Effect::Status(
                if control && !self.args.always_control {
                    "CONTROL — ctrl+\\ to release".to_owned()
                } else {
                    String::new()
                },
            ),
        );
        assert(effects(out@) =~= effects(old(out)@) + connected(old(self)@, now).1);
    }

    /// The session that was asked for could not be opened.
    pub fn session_failed(&mut self, reason: &str, now: u128, out: &mut Vec<Effect>)
        requires
            old(self)@.valid(),
            !old(self)@.under_way(),
            now <= LATEST,
        ensures
            final(self)@ == rescheduling(old(self)@, old(self)@.mode, reason@, now).0,
            effects(final(out)@) == effects(old(out)@) + rescheduling(
                old(self)@,
                old(self)@.mode,
                reason@,
                now,
            ).1,
            final(self)@.valid(),
            final(self)@.under_way(),
    {
        self.schedule_reconnect(self.mode, reason, now, out);
    }

    /// A message from session `gen`, whose terminal output reads `text` where it
    /// has any that can be decoded.
    pub fn show_frame(
        &mut self,
        gen: u64,
        frame: &Frame,
        text: Option<String>,
        grid: (usize, usize),
        out: &mut Vec<Effect>,
    )
        requires
            old(self)@.valid(),
        ensures
            final(self)@ == showing(old(self)@, gen, *frame, optional_text(text), grid).0,
            effects(final(out)@) == effects(old(out)@) + showing(
                old(self)@,
                gen,
                *frame,
                optional_text(text),
                grid,
            ).1,
            final(self)@.valid(),
    {
        broadcast use effects_push;

        let ghost before = effects(out@);
        let ghost step = showing(self@, gen, *frame, optional_text(text), grid);
        let current = match self.session {
            Some(session) => session.gen == gen,
            None => false,
        };
        if !current {
            assert(before + step.1 =~= before);
            return;
        }
        if same_text(frame.kind.as_str(), "terminal.closed") {
            let mut status = "remote terminal closed".to_owned();
            if let Some(reason) = &frame.reason {
                let why = join2(": ", reason.as_str());
                status.append(why.as_str());
            } else {
                assert(status@ + Seq::<char>::empty() =~= status@);
            }
            out.push(Effect::Status(status));
            self.paint(out);
            assert(effects(out@) =~= before + step.1);
            return;
        }
        if !same_text(frame.kind.as_str(), "terminal.frame") || frame.bytes.is_none() {
            assert(before + step.1 =~= before);
            return;
        }
        self.backoff_idx = 0;
        let nothing = String::new();
        assert(nothing@ =~= Seq::empty());
        out.push(Effect::Status(nothing));
        out.push(
            Effect::ResizeGrid {
                width: frame.width.unwrap_or(grid.0),
                height: frame.height.unwrap_or(grid.1),
            },
        );
        let full = match frame.full {
            Some(f) => f,
            None => false,
        };
        if full {
            out.push(Effect::ClearGrid);
        }
        if let Some(t) = text {
            out.push(Effect::Apply(t));
        }
        if self.args.dump {
            out.push(
                Effect::Dump {
                    seq: frame.seq,
                    full: frame.full,
                    width: frame.width.unwrap_or(0),
                    height: frame.height.unwrap_or(0),
                },
            );
        } else {
            self.paint(out);
        }
        assert(effects(out@) =~= before + step.1);
    }

    /// A message from session `gen`; `grid` is the size of the screen model. One
    /// from a session that was replaced is dropped.
    pub fn handle_frame(
        &mut self,
        gen: u64,
        frame: &Frame,
        grid: (usize, usize),
        out: &mut Vec<Effect>,
    )
        requires
            old(self)@.valid(),
        ensures
            final(self)@ == showing(old(self)@, gen, *frame, output_of(*frame), grid).0,
            effects(final(out)@) == effects(old(out)@) + showing(
                old(self)@,
                gen,
                *frame,
                output_of(*frame),
                grid,
            ).1,
            final(self)@.valid(),
    {
        let text = frame_output(frame);
        self.show_frame(gen, frame, text, grid, out);
    }

    /// Session `gen`, of this mode, has ended for a reason after some time.
    pub fn handle_exit(
        &mut self,
        gen: u64,
        exited: Mode,
        reason: &str,
        uptime: u128,
        now: u128,
        out: &mut Vec<Effect>,
    )
        requires
            old(self)@.valid(),
            now <= LATEST,
        ensures
            final(self)@ == exiting(old(self)@, gen, exited, reason@, uptime, now).0,
            effects(final(out)@) == effects(old(out)@) + exiting(
                old(self)@,
                gen,
                exited,
                reason@,
                uptime,
                now,
            ).1,
            final(self)@.valid(),
    {
        let ghost before = effects(out@);
        let ghost step = exiting(self@, gen, exited, reason@, uptime, now);
        let current = match self.session {
            Some(session) => session.gen == gen,
            None => false,
        };
        if !current {
            assert(before + step.1 =~= before);
            return;
        }
        self.session = None;
        let why = last_words_of(reason);
        if exited == Mode::Control {
            self.control_failures = if uptime < QUICK_CONTROL_FAILURE {
                self.control_failures + 1
            } else {
                0
            };
            if self.control_failures >= 2 {
                self.control_failures = 0;
                self.control_sticky = true;
                self.switch_mode(Mode::Observe, now, out);
                let mut hint = "control unavailable — viewing only".to_owned();
                if !why.as_str().is_empty() {
                    let inner = join3(" (", why.as_str(), ")");
                    hint.append(inner.as_str());
                } else {
                    assert(hint@ + Seq::<char>::empty() =~= hint@);
                }
                hint.append("; type to retry");
                self.hint(hint.as_str(), now, out);
                assert(effects(out@) =~= before + step.1);
                return;
            }
        }
        self.schedule_reconnect(exited, why.as_str(), now, out);
    }

    /// Keeps input for the next writable session.
    fn keep_input(&mut self, buf: Vec<u8>)
        ensures
            final(self)@ == (AppView {
                pending_input: old(self)@.pending_input.push(buf@),
                ..old(self)@
            }),
    {
        self.pending_input.push(buf);
        assert(self@.pending_input =~= old(self)@.pending_input.push(buf@));
    }

    fn handle_stdin_read_only(&mut self, buf: Vec<u8>, now: u128, out: &mut Vec<Effect>)
        requires
            old(self)@.valid(),
            encodable(buf@.len()),
            now <= LATEST,
        ensures
            final(self)@ == typing_read_only(old(self)@, buf@, now).0,
            effects(final(out)@) == effects(old(out)@) + typing_read_only(
                old(self)@,
                buf@,
                now,
            ).1,
            final(self)@.valid(),
    {
        if has_mouse_seq(buf.as_slice()) {
            if contains_wheel_press(buf.as_slice()) {
                if self.control_sticky {
                    self.control_sticky = false;
                    self.switch_mode(Mode::Control, now, out);
                } else {
                    self.hint("read-only — type to take control", now, out);
                }
            } else {
                assert(effects(out@) =~= effects(old(out)@) + Seq::<EffectView>::empty());
            }
            return;
        }
        self.control_sticky = false;
        self.keep_input(buf);
        self.switch_mode(Mode::Control, now, out);
    }

    fn forward_input(&mut self, buf: Vec<u8>, now: u128, out: &mut Vec<Effect>)
        requires
            old(self)@.valid(),
            old(self)@.session is Some,
            encodable(buf@.len()),
            now <= LATEST,
        ensures
            final(self)@ == forwarding(old(self)@, buf@, now).0,
            effects(final(out)@) == effects(old(out)@) + forwarding(old(self)@, buf@, now).1,
            final(self)@.valid(),
    {
        broadcast use effects_push;

        let ghost before = effects(out@);
        let ghost step = forwarding(self@, buf@, now);
        self.last_input = now;
        self.spawn_foreground_poll(false, now, out);
        let ghost polled = effects(out@);
        self.settle_at = Some(now + SETTLE_DELAY);
        let (found, rest) = route_input(buf.as_slice(), self.remote_is_shell);
        let mut i: usize = 0;
        assert(polled =~= polled + sending_scrolls(found@.take(0)));
        while i < found.len()
            invariant
                i <= found@.len(),
                effects(out@) == polled + sending_scrolls(found@.take(i as int)),
            decreases found@.len() - i,
        {
            let ghost sent = effects(out@);
            let line = scroll_line(&found[i]);
            out.push(Effect::Send(line));
            assert(effects(out@) == sent.push(EffectView::Send(line@)));
            assert(sending_scrolls(found@.take(i + 1)) =~= sending_scrolls(
                found@.take(i as int),
            ).push(effects(out@).last()));
            assert(effects(out@) =~= polled + sending_scrolls(found@.take(i + 1)));
            i += 1;
        }
        assert(found@.take(i as int) =~= found@);
        if rest.len() > 0 {
            let line = input_line(rest.as_slice());
            out.push(Effect::Send(line));
            out.push(Effect::Predict(rest));
        }
        assert(effects(out@) =~= before + step.1);
    }

    /// Input from the local terminal.
    pub fn handle_stdin(&mut self, buf: Vec<u8>, now: u128, out: &mut Vec<Effect>)
        requires
            old(self)@.valid(),
            encodable(buf@.len()),
            now <= LATEST,
        ensures
            final(self)@ == typing(old(self)@, buf@, now).0,
            effects(final(out)@) == effects(old(out)@) + typing(old(self)@, buf@, now).1,
            final(self)@.valid(),
    {
        let leaving_control = match self.switching_to {
            Some(m) => m == Mode::Observe,
            None => false,
        };
        if self.mode == Mode::Observe || leaving_control {
            self.handle_stdin_read_only(buf, now, out);
            return;
        }
        if buf.len() == 1 && buf[0] == 0x1c {
            self.last_input = now;
            if !self.args.always_control {
                self.control_sticky = false;
                self.switch_mode(Mode::Observe, now, out);
            } else {
                assert(effects(out@) =~= effects(old(out)@) + Seq::<EffectView>::empty());
            }
            return;
        }
        if self.switching_to.is_some() || self.session.is_none() {
            self.last_input = now;
            self.keep_input(buf);
            if let Some((_, m)) = self.reconnect_at {
                self.reconnect_at = Some((now, m));
            }
            assert(effects(out@) =~= effects(old(out)@) + Seq::<EffectView>::empty());
            return;
        }
        self.forward_input(buf, now, out);
    }

    /// The local terminal was resized.
    pub fn handle_resize(&mut self, term: (usize, usize), now: u128, out: &mut Vec<Effect>)
        requires
            old(self)@.valid(),
            now <= LATEST,
        ensures
            final(self)@ == resizing(old(self)@, term, now).0,
            effects(final(out)@) == effects(old(out)@) + resizing(old(self)@, term, now).1,
            final(self)@.valid(),
    {
        broadcast use effects_push;

        out.push(Effect::Invalidate);
        if self.args.always_control && self.mode == Mode::Observe && !self.control_sticky {
            self.switch_mode(Mode::Control, now, out);
        }
        if self.mode == Mode::Control && self.session.is_some() {
            out.push(Effect::Send(resize_line(term.0, term.1)));
        }
        self.paint(out);
        assert(effects(out@) =~= effects(old(out)@) + resizing(old(self)@, term, now).1);
    }

    /// The mode of the first session.
    pub fn first_mode(&self, term: (usize, usize)) -> (m: Mode)
        ensures
            m == opening_mode(self@.args.always_control, term),
    {
        initial_mode(self.args.always_control, term)
    }

    /// The first session was asked for, and came or not. The pane may have got
    /// its size meanwhile.
    pub fn settle_in(&mut self, term: (usize, usize), now: u128, out: &mut Vec<Effect>)
        requires
            old(self)@.valid(),
            now <= LATEST,
        ensures
            final(self)@ == settling_in(old(self)@, term, now).0,
            effects(final(out)@) == effects(old(out)@) + settling_in(old(self)@, term, now).1,
            final(self)@.valid(),
    {
        if self.mode == Mode::Observe && self.first_mode(term) == Mode::Control {
            self.switch_mode(Mode::Control, now, out);
        } else if self.args.always_control && self.mode == Mode::Observe {
            self.hint("read-only until this pane is sized — type to take control", now, out);
        } else {
            assert(effects(out@) =~= effects(old(out)@) + Seq::<EffectView>::empty());
        }
    }

    /// When control is given back for want of input, if it ever is.
    pub fn idle_at(&self) -> (at: Option<u128>)
        requires
            self@.valid(),
        ensures
            at == idle_moment(self@),
    {
        if self.mode == Mode::Control && self.switching_to.is_none() && self.session.is_some()
            && !self.args.always_control && self.args.control_idle_secs > 0 {
            Some(self.last_input + self.args.control_idle_secs as u128 * SECOND)
        } else {
            None
        }
    }

    /// When something is due next, if anything is.
    pub fn deadline(&self, idle_at: Option<u128>, prediction_at: Option<u128>) -> (at: Option<u128>)
        ensures
            at == next_moment(self@, idle_at, prediction_at),
    {
        let reconnect = match self.reconnect_at {
            Some((t, _)) => Some(t),
            None => None,
        };
        first_of(
            self.switch_at,
            first_of(
                reconnect,
                first_of(
                    self.hint_clear_at,
                    first_of(idle_at, first_of(prediction_at, self.settle_at)),
                ),
            ),
        )
    }

    /// The mode to connect in because a switch is due.
    pub fn due_switch(&mut self, now: u128) -> (m: Option<Mode>)
        requires
            old(self)@.valid(),
        ensures
            (final(self)@, m) == switch_due(old(self)@, now),
            final(self)@.valid(),
            m is Some ==> !final(self)@.under_way(),
    {
        if due(self.switch_at, now) {
            self.switch_at = None;
            self.switching_to.take()
        } else {
            None
        }
    }

    /// The mode to connect in because a reconnect is due.
    pub fn due_reconnect(&mut self, now: u128) -> (m: Option<Mode>)
        requires
            old(self)@.valid(),
        ensures
            (final(self)@, m) == reconnect_due(old(self)@, now),
            final(self)@.valid(),
            m is Some ==> !final(self)@.under_way(),
    {
        if let Some((t, m)) = self.reconnect_at {
            if t <= now {
                self.reconnect_at = None;
                return Some(m);
            }
        }
        None
    }

    /// Takes the hint away when it has been shown long enough.
    fn clear_hint(&mut self, now: u128, out: &mut Vec<Effect>)
        requires
            old(self)@.valid(),
        ensures
            final(self)@ == clearing_hint(old(self)@, now).0,
            effects(final(out)@) == effects(old(out)@) + clearing_hint(old(self)@, now).1,
            final(self)@.valid(),
    {
        broadcast use effects_push;

        if due(self.hint_clear_at, now) {
            self.hint_clear_at = None;
            let nothing = String::new();
            assert(nothing@ =~= Seq::empty());
            out.push(Effect::Status(nothing));
            self.paint(out);
        }
        assert(effects(out@) =~= effects(old(out)@) + clearing_hint(old(self)@, now).1);
    }

    /// Gives control back when nothing was typed for long enough.
    fn release_idle(&mut self, idle_at: Option<u128>, now: u128, out: &mut Vec<Effect>)
        requires
            old(self)@.valid(),
            now <= LATEST,
        ensures
            final(self)@ == releasing_idle(old(self)@, idle_at, now).0,
            effects(final(out)@) == effects(old(out)@) + releasing_idle(
                old(self)@,
                idle_at,
                now,
            ).1,
            final(self)@.valid(),
    {
        let ghost step = releasing_idle(self@, idle_at, now);
        if due(idle_at, now) && self.mode == Mode::Control && self.switching_to.is_none() {
            self.control_sticky = true;
            self.switch_mode(Mode::Observe, now, out);
            self.hint("control released (idle) — type to retake", now, out);
        }
        assert(effects(out@) =~= effects(old(out)@) + step.1);
    }

    /// Polls the remote foreground when input has settled.
    fn poll_settled(&mut self, now: u128, out: &mut Vec<Effect>)
        requires
            old(self)@.valid(),
        ensures
            final(self)@ == polling_settled(old(self)@, now).0,
            effects(final(out)@) == effects(old(out)@) + polling_settled(old(self)@, now).1,
            final(self)@.valid(),
    {
        if due(self.settle_at, now) {
            self.settle_at = None;
            self.spawn_foreground_poll(true, now, out);
        } else {
            assert(effects(out@) =~= effects(old(out)@) + Seq::<EffectView>::empty());
        }
    }

    /// What else is due now, once the connections that were due are made.
    pub fn tick(&mut self, idle_at: Option<u128>, now: u128, out: &mut Vec<Effect>)
        requires
            old(self)@.valid(),
            now <= LATEST,
        ensures
            final(self)@ == ticking(old(self)@, idle_at, now).0,
            effects(final(out)@) == effects(old(out)@) + ticking(old(self)@, idle_at, now).1,
            final(self)@.valid(),
    {
        let ghost cleared = clearing_hint(self@, now);
        let ghost released = releasing_idle(cleared.0, idle_at, now);
        let ghost settled = polling_settled(released.0, now);
        self.clear_hint(now, out);
        self.release_idle(idle_at, now, out);
        self.poll_settled(now, out);
        assert(effects(old(out)@) + cleared.1 + released.1 + settled.1 =~= effects(old(out)@) + (
        cleared.1 + released.1 + settled.1));
    }

    /// Takes back guesses that were not confirmed in time.
    pub fn expire_predictions(&self, prediction_at: Option<u128>, now: u128, out: &mut Vec<Effect>)
        ensures
            effects(final(out)@) == effects(old(out)@) + expiring(
                self@,
                prediction_at,
                now,
            ),
    {
        broadcast use effects_push;

        if due(prediction_at, now) {
            out.push(Effect::ExpirePredictions);
            self.paint(out);
            assert(effects(out@) =~= effects(old(out)@) + (seq![EffectView::ExpirePredictions]
                + painting(self@)));
        } else {
            assert(effects(out@) =~= effects(old(out)@) + Seq::<EffectView>::empty());
        }
    }

    /// Does one stage of what is due at a moment, and says which stage follows.
    /// Where it asks for a session, `session_up` or `session_failed` comes before
    /// that.
    pub fn wake(
        &mut self,
        stage: WakeStage,
        term: (usize, usize),
        idle_at: Option<u128>,
        prediction_at: Option<u128>,
        now: u128,
        out: &mut Vec<Effect>,
    ) -> (next: WakeStage)
        requires
            old(self)@.valid(),
            due_at(old(self)@, stage, now) is Some ==> old(self)@.next_gen < u64::MAX,
            now <= LATEST,
        ensures
            final(self)@ == wake_step(old(self)@, stage, term, idle_at, prediction_at, now).0.0,
            effects(final(out)@) == effects(old(out)@) + wake_step(
                old(self)@,
                stage,
                term,
                idle_at,
                prediction_at,
                now,
            ).0.1,
            next == wake_step(old(self)@, stage, term, idle_at, prediction_at, now).1,
            final(self)@.valid(),
            due_at(old(self)@, stage, now) is Some ==> !final(self)@.under_way(),
    {
        let ghost before = effects(out@);
        match stage {
            WakeStage::Switch => {
                match self.due_switch(now) {
                    Some(m) => self.connect(m, term, out),
                    None => {
                        assert(before + Seq::<EffectView>::empty() =~= before);
                    },
                }
                WakeStage::Reconnect
            },
            WakeStage::Reconnect => {
                match self.due_reconnect(now) {
                    Some(m) => self.connect(m, term, out),
                    None => {
                        assert(before + Seq::<EffectView>::empty() =~= before);
                    },
                }
                WakeStage::Timers
            },
            WakeStage::Timers => {
                self.tick(idle_at, now, out);
                WakeStage::Guesses
            },
            WakeStage::Guesses => {
                self.expire_predictions(prediction_at, now, out);
                WakeStage::Done
            },
            WakeStage::Done => {
                assert(before + Seq::<EffectView>::empty() =~= before);
                WakeStage::Done
            },
        }
    }

    /// The wrapper ends.
    pub fn shut_down(&mut self, out: &mut Vec<Effect>)
        ensures
            final(self)@ == leaving(old(self)@).0,
            effects(final(out)@) == effects(old(out)@) + leaving(old(self)@).1,
            old(self)@.valid() ==> final(self)@.valid(),
    {
        broadcast use effects_push;

        if let Some(session) = self.session {
            self.session = None;
            out.push(Effect::Finish { gen: session.gen, release: session.mode == Mode::Control });
        }
        if self.tty {
            out.push(
                Effect::Write(
                    "\x1b[?1002l\x1b[?1006l\x1b[?1l\x1b[?25h\x1b[?1049l".to_owned(),
                ),
            );
        }
        assert(effects(out@) =~= effects(old(out)@) + leaving(old(self)@).1);
    }
}

/// The model of a pane says of it what it holds, field by field.
pub proof fn the_model_is_of_the_pane(app: App)
    ensures
        app@.args == app.args@,
        app@.tty == app.tty,
        app@.mode == app.mode,
        app@.switching_to == app.switching_to,
        app@.switch_at == app.switch_at,
        app@.session == app.session,
        app@.next_gen == app.next_gen,
        app@.backoff_idx == app.backoff_idx,
        app@.reconnect_at == app.reconnect_at,
        app@.control_failures == app.control_failures,
        app@.control_sticky == app.control_sticky,
        app@.pending_input.len() == app.pending_input@.len(),
        forall|i: int|
            0 <= i < app.pending_input@.len() ==> #[trigger] app@.pending_input[i]
                == app.pending_input@[i]@,
        app@.last_input == app.last_input,
        app@.hint_clear_at == app.hint_clear_at,
        app@.remote_is_shell == app.remote_is_shell,
        app@.fg_poll_at == app.fg_poll_at,
        app@.settle_at == app.settle_at,
        app@.mouse_grabbed == app.mouse_grabbed,
        app@.app_cursor_keys == app.app_cursor_keys,
{
}

// ---------------------------------------------------------------------------
// what the handlers need

fn due(at: Option<u128>, now: u128) -> (b: bool)
    ensures
        b == is_due(at, now),
{
    match at {
        Some(t) => t <= now,
        None => false,
    }
}

fn first_of(a: Option<u128>, b: Option<u128>) -> (at: Option<u128>)
    ensures
        at == earlier(a, b),
{
    match (a, b) {
        (Some(x), Some(y)) => if x <= y {
            a
        } else {
            b
        },
        (Some(_), None) => a,
        (None, _) => b,
    }
}

/// The terminal output that a message carries, where it can be decoded.
pub open spec fn output_of(frame: Frame) -> Option<Seq<char>> {
    match optional_text(frame.bytes) {
        Some(text) => match base64_bytes(text) {
            Some(bytes) => Some(shown(bytes)),
            None => None,
        },
        None => None,
    }
}

/// The terminal output that a message carries, where it can be decoded.
pub fn frame_output(frame: &Frame) -> (text: Option<String>)
    ensures
        optional_text(text) == output_of(*frame),
{
    match &frame.bytes {
        Some(encoded) => match base64_decode(encoded.as_str()) {
            Some(bytes) => {
                proof {
                    encoded_bytes_are_read_back(bytes@);
                }
                Some(from_utf8_lossy(bytes.as_slice()))
            },
            None => None,
        },
        None => None,
    }
}

/// Text that the remote sends is the text that is shown, character for
/// character.
pub proof fn sent_text_is_shown(frame: Frame, text: Seq<char>)
    requires
        optional_text(frame.bytes) == Some(base64_of(encode_utf8(text))),
    ensures
        output_of(frame) == Some(text),
{
    broadcast use {vstd::utf8::encode_utf8_valid_utf8, vstd::utf8::encode_utf8_decode_utf8};

    encoded_bytes_are_read_back(encode_utf8(text));
}

/// A message shows what its bytes encode, and nothing where it has none or where
/// they are no encoding at all.
pub proof fn only_encoded_output_is_shown(frame: Frame, bytes: Seq<u8>)
    ensures
        frame.bytes is None ==> output_of(frame) is None,
        frame.bytes is Some && frame.bytes->0@ == base64_of(bytes) ==> output_of(frame) == Some(
            shown(bytes),
        ),
        frame.bytes is Some && (forall|b: Seq<u8>| #[trigger] base64_of(b) != frame.bytes->0@)
            ==> output_of(frame) is None,
{
    encoded_bytes_are_read_back(bytes);
}

/// The last line of `text` that is not blank, trimmed; or nothing.
pub fn last_words_of(text: &str) -> (s: String)
    ensures
        s@ == last_words(lines_of(text@)),
{
    let all = lines(text);
    let ghost listed = texts(all@);
    let mut left: usize = all.len();
    assert(listed.take(left as int) =~= listed);
    while left > 0
        invariant
            left <= all@.len(),
            listed == texts(all@),
            listed == lines_of(text@),
            last_words(listed.take(left as int)) == last_words(listed),
        decreases left,
    {
        let line = trim(all[left - 1].as_str());
        assert(listed.take(left as int).last() == all@[left - 1]@);
        if !line.as_str().is_empty() {
            return line;
        }
        assert(listed.take(left as int).drop_last() =~= listed.take(left - 1));
        left -= 1;
    }
    assert(listed.take(0) =~= Seq::empty());
    String::new()
}

} // verus!
