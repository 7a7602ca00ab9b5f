use herdr_mirror::args::parse_args;
use herdr_mirror::mode::Mode;
use herdr_mirror::pane::{frame_output, last_words_of, App};
use herdr_mirror::state::{Effect, Session, WakeStage, MILLI, SECOND};
use herdr_mirror::wire::Frame;

const TERM: (usize, usize) = (120, 40);

fn app_with(options: &[&str], tty: bool) -> App {
    let mut argv: Vec<String> = vec!["host".to_string(), "w1:p1".to_string()];
    argv.extend(options.iter().map(|s| s.to_string()));
    let mut out = Vec::new();
    App::new(parse_args(&argv).unwrap(), tty, 0, &mut out)
}

/// What is to be done, in short.
fn told(out: &[Effect]) -> Vec<String> {
    out.iter()
        .map(|e| match e {
            Effect::Status(s) => format!("status {}", s),
            Effect::Send(s) => format!("send {}", s),
            Effect::Write(s) => format!("write {:?}", s),
            Effect::Stop { gen, release } => format!("stop {} {}", gen, release),
            Effect::Kill { gen } => format!("kill {}", gen),
            Effect::Finish { gen, release } => format!("finish {} {}", gen, release),
            Effect::Spawn { mode, cols, rows, gen } => {
                format!("spawn {} {}x{} {}", mode.as_str(), cols, rows, gen)
            }
            Effect::Predict(b) => format!("predict {:?}", b),
            Effect::Apply(s) => format!("apply {}", s),
            Effect::ResizeGrid { width, height } => format!("grid {}x{}", width, height),
            Effect::Dump { seq, full, width, height } => {
                format!("dump {:?} {:?} {}x{}", seq, full, width, height)
            }
            Effect::Paint => "paint".to_string(),
            Effect::Invalidate => "invalidate".to_string(),
            Effect::ResetPredictions => "reset".to_string(),
            Effect::ExpirePredictions => "expire".to_string(),
            Effect::Poll => "poll".to_string(),
            Effect::ClearGrid => "clear".to_string(),
        })
        .collect()
}

fn opened(options: &[&str], tty: bool, mode: Mode) -> App {
    let mut app = app_with(options, tty);
    let mut out = Vec::new();
    app.connect(mode, TERM, &mut out);
    app.session_up(0, &mut out);
    app
}

fn frame(kind: &str) -> Frame {
    Frame {
        kind: kind.to_string(),
        seq: Some(7),
        full: None,
        width: None,
        height: None,
        bytes: None,
        reason: None,
    }
}

#[test]
fn startup_takes_the_terminal_over() {
    let args = parse_args(&["h".to_string(), "p".to_string()]).unwrap();
    let mut out = Vec::new();
    let app = App::new(args.clone(), true, 5, &mut out);
    assert_eq!(told(&out), ["write \"\\u{1b}[?1049h\\u{1b}[2J\\u{1b}[H\\u{1b}[?1002h\\u{1b}[?1006h\""]);
    assert!(app.mouse_grabbed && !app.app_cursor_keys);
    let mut out = Vec::new();
    let quiet = App::new(args, false, 5, &mut out);
    assert!(out.is_empty() && !quiet.mouse_grabbed);
}

#[test]
fn opening_a_read_only_session() {
    let mut app = app_with(&[], true);
    let mut out = Vec::new();
    app.connect(Mode::Observe, TERM, &mut out);
    assert_eq!(told(&out), ["reset", "spawn observe 240x72 1"]);
    let mut out = Vec::new();
    app.session_up(10, &mut out);
    assert_eq!(told(&out), ["poll", "status "]);
    assert_eq!(app.session, Some(Session { gen: 1, mode: Mode::Observe }));
}

#[test]
fn sizes_that_are_asked_for() {
    let fixed = app_with(&["--cols", "10", "--rows", "9"], true);
    assert_eq!(fixed.observe_size((300, 100)), (10, 9));
    let open = app_with(&[], true);
    assert_eq!(open.observe_size((300, 20)), (300, 72));
    let dumped = app_with(&[], false);
    assert_eq!(dumped.observe_size((300, 100)), (240, 72));
    let mut app = app_with(&[], true);
    let mut out = Vec::new();
    app.connect(Mode::Control, (55, 66), &mut out);
    assert_eq!(told(&out), ["reset", "spawn control 55x66 1"]);
}

#[test]
fn a_session_that_cannot_be_opened_is_tried_again_later() {
    let mut app = app_with(&[], true);
    let mut waits = Vec::new();
    for gen in 1..6u64 {
        let mut out = Vec::new();
        app.connect(Mode::Observe, TERM, &mut out);
        let mut out = Vec::new();
        app.session_failed("no route", 0, &mut out);
        waits.push(told(&out)[0].clone());
        let at = app.reconnect_at.unwrap();
        assert_eq!(app.due_reconnect(at.0 - 1), None);
        assert_eq!(app.due_reconnect(at.0), Some(Mode::Observe));
        assert_eq!(app.next_gen, gen);
    }
    assert_eq!(
        waits,
        [1, 2, 5, 10, 10].map(|s| format!("status reconnecting in {}s (observe) — no route", s))
    );
    let mut out = Vec::new();
    app.schedule_reconnect(Mode::Control, "", 0, &mut out);
    assert_eq!(told(&out), ["status reconnecting in 10s (control)", "paint"]);
}

#[test]
fn a_keystroke_takes_control_and_arrives() {
    let mut app = opened(&[], true, Mode::Observe);
    let mut out = Vec::new();
    app.handle_stdin(b"l".to_vec(), 1000, &mut out);
    assert_eq!(told(&out), ["stop 1 false", "invalidate", "status taking control…", "paint"]);
    // typing ahead is kept and starts nothing
    let mut out = Vec::new();
    app.handle_stdin(b"s\r".to_vec(), 1001, &mut out);
    assert!(out.is_empty());
    assert_eq!(app.due_switch(1000 + 200 * MILLI - 1), None);
    assert_eq!(app.due_switch(1000 + 200 * MILLI), Some(Mode::Control));
    let mut out = Vec::new();
    app.connect(Mode::Control, TERM, &mut out);
    app.session_up(300 * MILLI, &mut out);
    assert_eq!(
        told(&out),
        [
            "reset",
            "spawn control 120x40 2",
            "send {\"bytes\":\"bA==\",\"type\":\"terminal.input\"}\n",
            "send {\"bytes\":\"cw0=\",\"type\":\"terminal.input\"}\n",
            "status CONTROL — ctrl+\\ to release",
        ]
    );
    assert!(app.pending_input.is_empty());
}

#[test]
fn switching_twice_starts_one_switch() {
    let mut app = opened(&[], true, Mode::Observe);
    let mut out = Vec::new();
    app.switch_mode(Mode::Control, 10, &mut out);
    let n = out.len();
    let at = app.switch_at;
    app.switch_mode(Mode::Control, 20, &mut out);
    assert_eq!((out.len(), app.switch_at), (n, at));
    // turning round is a switch of its own, and has no session to stop
    app.switch_mode(Mode::Observe, 30, &mut out);
    assert_eq!(told(&out[n..]), ["invalidate", "status releasing…", "paint"]);
}

#[test]
fn input_is_forwarded_with_scrolls_first() {
    let mut app = opened(&[], true, Mode::Control);
    app.remote_is_shell = Some(false);
    app.app_cursor_keys = true;
    let mut out = Vec::new();
    app.handle_stdin(b"a\x1b[<65;1;0Mb".to_vec(), 3 * SECOND, &mut out);
    assert_eq!(
        told(&out),
        [
            "poll",
            "send {\"column\":0,\"direction\":\"down\",\"lines\":3,\"modifiers\":0,\"row\":0,\"source\":\"wheel\",\"type\":\"terminal.scroll\"}\n",
            "send {\"bytes\":\"YWI=\",\"type\":\"terminal.input\"}\n",
            "predict [97, 98]",
        ]
    );
    assert_eq!(app.settle_at, Some(3 * SECOND + 350 * MILLI));
    assert_eq!(app.last_input, 3 * SECOND);
    // a click alone at a shell leaves nothing to send
    app.remote_is_shell = Some(true);
    app.mouse_grabbed = false;
    app.app_cursor_keys = false;
    let mut out = Vec::new();
    app.handle_stdin(b"\x1b[<0;5;5M".to_vec(), 3 * SECOND + 1, &mut out);
    assert!(out.is_empty());
}

#[test]
fn polls_are_throttled_unless_forced() {
    let mut app = app_with(&[], true);
    let mut out = Vec::new();
    app.spawn_foreground_poll(false, 10 * SECOND, &mut out);
    app.spawn_foreground_poll(false, 10 * SECOND + 1500 * MILLI - 1, &mut out);
    assert_eq!(told(&out), ["poll"]);
    app.spawn_foreground_poll(true, 10 * SECOND + 1, &mut out);
    app.spawn_foreground_poll(false, 10 * SECOND + 1 + 1500 * MILLI, &mut out);
    assert_eq!(told(&out), ["poll", "poll", "poll"]);
}

#[test]
fn the_release_key() {
    let mut app = opened(&[], true, Mode::Control);
    let mut out = Vec::new();
    app.handle_stdin(vec![0x1c], 5, &mut out);
    assert_eq!(told(&out), ["stop 1 true", "invalidate", "status releasing…", "paint"]);
    assert_eq!(app.due_switch(SECOND), Some(Mode::Observe));
    let mut kept = opened(&["--always-control"], true, Mode::Control);
    let mut out = Vec::new();
    kept.handle_stdin(vec![0x1c], 5, &mut out);
    assert!(out.is_empty());
    assert_eq!(kept.session, Some(Session { gen: 1, mode: Mode::Control }));
    assert_eq!(kept.last_input, 5);
}

#[test]
fn a_wheel_over_a_read_only_pane_is_only_hinted_at() {
    let mut app = opened(&[], true, Mode::Observe);
    let mut out = Vec::new();
    app.handle_stdin(b"\x1b[<64;1;1M".to_vec(), 5, &mut out);
    assert_eq!(told(&out), ["status read-only — type to take control", "paint"]);
    assert_eq!(app.hint_clear_at, Some(5 + 1500 * MILLI));
    let mut out = Vec::new();
    app.handle_stdin(b"\x1b[<0;1;1M".to_vec(), 6, &mut out);
    assert!(out.is_empty());
    app.control_sticky = true;
    app.handle_stdin(b"\x1b[<64;1;1M".to_vec(), 7, &mut out);
    assert_eq!(app.switching_to, Some(Mode::Control));
    assert!(!app.control_sticky && app.pending_input.is_empty());
}

#[test]
fn a_reconnect_is_hurried_by_typing() {
    let mut app = opened(&[], true, Mode::Control);
    let mut out = Vec::new();
    app.handle_exit(1, Mode::Control, "gone\n  \n", 10 * SECOND, 20 * SECOND, &mut out);
    assert_eq!(told(&out), ["status reconnecting in 1s (control) — gone", "paint"]);
    let mut out = Vec::new();
    app.handle_stdin(b"x".to_vec(), 20 * SECOND + 5, &mut out);
    assert!(out.is_empty());
    assert_eq!(app.reconnect_at, Some((20 * SECOND + 5, Mode::Control)));
    assert_eq!(app.pending_input, vec![b"x".to_vec()]);
}

#[test]
fn control_that_fails_twice_quickly_is_given_up() {
    let mut app = opened(&[], true, Mode::Control);
    let mut out = Vec::new();
    app.handle_exit(1, Mode::Control, "refused", 3 * SECOND, 0, &mut out);
    assert_eq!(app.control_failures, 1);
    assert_eq!(app.due_reconnect(SECOND), Some(Mode::Control));
    app.connect(Mode::Control, TERM, &mut out);
    app.session_up(SECOND, &mut out);
    let mut out = Vec::new();
    app.handle_exit(2, Mode::Control, "x\n refused \n", 4 * SECOND - 1, 5 * SECOND, &mut out);
    assert_eq!(
        told(&out),
        [
            "invalidate",
            "status releasing…",
            "paint",
            "status control unavailable — viewing only (refused); type to retry",
            "paint",
        ]
    );
    assert_eq!(app.switching_to, Some(Mode::Observe));
    assert!(app.control_sticky);
    assert_eq!(app.control_failures, 0);
    // a slow end is no failure
    let mut slow = opened(&[], true, Mode::Control);
    slow.control_failures = 1;
    slow.handle_exit(1, Mode::Control, "", 4 * SECOND, 5 * SECOND, &mut out);
    assert_eq!(slow.control_failures, 0);
    assert_eq!(slow.reconnect_at, Some((6 * SECOND, Mode::Control)));
}

#[test]
fn a_window_drag_takes_control_once_but_never_after_a_refusal() {
    let mut app = opened(&["--always-control"], true, Mode::Observe);
    let mut out = Vec::new();
    app.handle_resize((90, 30), 5, &mut out);
    assert_eq!(
        told(&out),
        ["invalidate", "stop 1 false", "invalidate", "status taking control…", "paint", "paint"]
    );
    let mut refused = opened(&["--always-control"], true, Mode::Observe);
    refused.control_sticky = true;
    let mut out = Vec::new();
    refused.handle_resize((90, 30), 5, &mut out);
    assert_eq!(told(&out), ["invalidate", "paint"]);
    assert_eq!(refused.switching_to, None);
}

#[test]
fn a_resize_is_passed_on_in_control_only() {
    let mut app = opened(&[], true, Mode::Control);
    let mut out = Vec::new();
    app.handle_resize((90, 30), 5, &mut out);
    assert_eq!(
        told(&out),
        [
            "invalidate",
            "send {\"cols\":90,\"rows\":30,\"type\":\"terminal.resize\"}\n",
            "paint",
        ]
    );
    let mut watching = opened(&[], true, Mode::Observe);
    let mut out = Vec::new();
    watching.handle_resize((90, 30), 5, &mut out);
    assert_eq!(told(&out), ["invalidate", "paint"]);
}

#[test]
fn settling_in_after_the_first_session() {
    let mut waiting = opened(&["--always-control"], true, Mode::Observe);
    let mut out = Vec::new();
    waiting.settle_in((80, 24), 5, &mut out);
    assert_eq!(
        told(&out),
        ["status read-only until this pane is sized — type to take control", "paint"]
    );
    waiting.settle_in((81, 24), 6, &mut out);
    assert_eq!(waiting.switching_to, Some(Mode::Control));
    let mut plain = opened(&[], true, Mode::Observe);
    let mut out = Vec::new();
    plain.settle_in((200, 80), 5, &mut out);
    assert!(out.is_empty());
    assert_eq!(plain.first_mode((200, 80)), Mode::Observe);
    assert_eq!(waiting.first_mode((200, 80)), Mode::Control);
}

#[test]
fn frames_are_drawn() {
    let mut app = opened(&[], true, Mode::Observe);
    app.backoff_idx = 3;
    let mut f = frame("terminal.frame");
    f.bytes = Some("aGk=".to_string());
    f.full = Some(true);
    f.width = Some(100);
    let mut out = Vec::new();
    app.handle_frame(1, &f, (80, 24), &mut out);
    assert_eq!(told(&out), ["status ", "grid 100x24", "clear", "apply hi", "paint"]);
    assert_eq!(app.backoff_idx, 0);
    // output that cannot be decoded still counts as a sign of life
    f.bytes = Some("?".to_string());
    f.full = Some(false);
    app.backoff_idx = 3;
    let mut out = Vec::new();
    app.handle_frame(1, &f, (80, 24), &mut out);
    assert_eq!(told(&out), ["status ", "grid 100x24", "paint"]);
    assert_eq!(app.backoff_idx, 0);
}

#[test]
fn frames_are_dumped() {
    let mut app = opened(&["--dump"], false, Mode::Observe);
    let mut f = frame("terminal.frame");
    f.bytes = Some("aGk=".to_string());
    f.height = Some(9);
    let mut out = Vec::new();
    app.handle_frame(1, &f, (80, 24), &mut out);
    assert_eq!(told(&out), ["status ", "grid 80x9", "apply hi", "dump Some(7) None 0x9"]);
}

#[test]
fn stale_and_foreign_messages_are_ignored() {
    let mut app = opened(&[], true, Mode::Observe);
    let mut f = frame("terminal.frame");
    f.bytes = Some("aGk=".to_string());
    let mut out = Vec::new();
    app.handle_frame(2, &f, (80, 24), &mut out);
    app.handle_exit(0, Mode::Observe, "x", 0, 0, &mut out);
    app.handle_frame(1, &frame("terminal.frame"), (80, 24), &mut out);
    app.handle_frame(1, &frame("other"), (80, 24), &mut out);
    assert!(out.is_empty());
    assert_eq!(app.session, Some(Session { gen: 1, mode: Mode::Observe }));
}

#[test]
fn a_closed_terminal_is_reported() {
    let mut app = opened(&[], true, Mode::Observe);
    let mut f = frame("terminal.closed");
    let mut out = Vec::new();
    app.handle_frame(1, &f, (80, 24), &mut out);
    f.reason = Some("pane gone".to_string());
    app.handle_frame(1, &f, (80, 24), &mut out);
    assert_eq!(
        told(&out),
        ["status remote terminal closed", "paint", "status remote terminal closed: pane gone", "paint"]
    );
}

#[test]
fn frame_output_is_decoded_leniently() {
    let mut f = frame("terminal.frame");
    assert_eq!(frame_output(&f), None);
    f.bytes = Some("w6T/".to_string());
    assert_eq!(frame_output(&f).unwrap(), "ä\u{fffd}");
    f.bytes = Some("w6T".to_string());
    assert_eq!(frame_output(&f), None);
}

#[test]
fn the_foreground_sets_the_terminal_modes() {
    let mut app = opened(&[], true, Mode::Control);
    let mut out = Vec::new();
    app.handle_foreground(Some(true), &mut out);
    assert_eq!(told(&out), ["write \"\\u{1b}[?1002l\""]);
    let mut out = Vec::new();
    app.handle_foreground(None, &mut out);
    app.handle_foreground(Some(true), &mut out);
    assert!(out.is_empty());
    app.handle_foreground(Some(false), &mut out);
    assert_eq!(
        told(&out),
        ["write \"\\u{1b}[?1002h\\u{1b}[?1006h\"", "write \"\\u{1b}[?1h\""]
    );
    let mut out = Vec::new();
    app.handle_foreground(Some(true), &mut out);
    assert_eq!(told(&out), ["write \"\\u{1b}[?1002l\"", "write \"\\u{1b}[?1l\""]);
    let mut quiet = opened(&[], false, Mode::Control);
    let mut out = Vec::new();
    quiet.handle_foreground(Some(false), &mut out);
    assert!(out.is_empty());
    assert_eq!(quiet.remote_is_shell, Some(false));
}

#[test]
fn idle_control_is_given_back() {
    let mut app = opened(&["--control-idle", "60"], true, Mode::Control);
    let mut out = Vec::new();
    app.handle_stdin(b"x".to_vec(), 10 * SECOND, &mut out);
    let idle = app.idle_at();
    assert_eq!(idle, Some(70 * SECOND));
    app.settle_at = None;
    let mut out = Vec::new();
    app.tick(idle, 70 * SECOND - 1, &mut out);
    assert!(out.is_empty());
    app.tick(idle, 70 * SECOND, &mut out);
    assert_eq!(
        told(&out),
        [
            "stop 1 true",
            "invalidate",
            "status releasing…",
            "paint",
            "status control released (idle) — type to retake",
            "paint",
        ]
    );
    assert!(app.control_sticky);
    assert_eq!(app.idle_at(), None);
    assert_eq!(opened(&["--control-idle", "0"], true, Mode::Control).idle_at(), None);
    assert_eq!(opened(&["--always-control"], true, Mode::Control).idle_at(), None);
    assert_eq!(opened(&[], true, Mode::Observe).idle_at(), None);
    // the largest limit is far away, not an overflow
    let far = opened(&["--control-idle", "18446744073709551615"], true, Mode::Control);
    assert_eq!(far.idle_at(), Some(u64::MAX as u128 * SECOND));
}

#[test]
fn timers_fire_once() {
    let mut app = opened(&[], true, Mode::Control);
    let mut out = Vec::new();
    app.hint("hello", 0, &mut out);
    app.settle_at = Some(5 * SECOND);
    let mut out = Vec::new();
    app.tick(None, 5 * SECOND, &mut out);
    assert_eq!(told(&out), ["status ", "paint", "poll"]);
    let mut out = Vec::new();
    app.tick(None, 6 * SECOND, &mut out);
    app.expire_predictions(None, 6 * SECOND, &mut out);
    app.expire_predictions(Some(7 * SECOND), 6 * SECOND, &mut out);
    assert!(out.is_empty());
    app.expire_predictions(Some(6 * SECOND), 6 * SECOND, &mut out);
    assert_eq!(told(&out), ["expire", "paint"]);
}

#[test]
fn the_next_moment_is_the_earliest() {
    let mut app = opened(&[], true, Mode::Control);
    assert_eq!(app.deadline(None, None), None);
    app.hint_clear_at = Some(9);
    app.settle_at = Some(4);
    assert_eq!(app.deadline(Some(7), Some(5)), Some(4));
    app.settle_at = None;
    assert_eq!(app.deadline(Some(7), Some(5)), Some(5));
    assert_eq!(app.deadline(Some(7), None), Some(7));
    app.switch_at = Some(3);
    assert_eq!(app.deadline(Some(7), None), Some(3));
    app.switch_at = None;
    app.reconnect_at = Some((2, Mode::Observe));
    assert_eq!(app.deadline(Some(7), None), Some(2));
}

#[test]
fn leaving_lets_the_session_go() {
    let mut app = opened(&[], true, Mode::Control);
    let mut out = Vec::new();
    app.shut_down(&mut out);
    assert_eq!(
        told(&out),
        [
            "finish 1 true",
            "write \"\\u{1b}[?1002l\\u{1b}[?1006l\\u{1b}[?1l\\u{1b}[?25h\\u{1b}[?1049l\"",
        ]
    );
    let mut quiet = opened(&[], false, Mode::Observe);
    let mut out = Vec::new();
    quiet.shut_down(&mut out);
    assert_eq!(told(&out), ["finish 1 false"]);
}

#[test]
fn the_last_words_of_a_session() {
    assert_eq!(last_words_of("a\n  b \n\n \t\n"), "b");
    assert_eq!(last_words_of(""), "");
    assert_eq!(last_words_of("\n \r\n"), "");
}

/// Goes through all that is due, with a session that comes or does not.
fn wake_up(app: &mut App, idle_at: Option<u128>, guesses: Option<u128>, now: u128, comes: bool) -> Vec<String> {
    let mut done = Vec::new();
    let mut stage = WakeStage::Switch;
    while stage != WakeStage::Done {
        let mut out = Vec::new();
        stage = app.wake(stage, TERM, idle_at, guesses, now, &mut out);
        if out.iter().any(|e| matches!(e, Effect::Spawn { .. })) {
            if comes {
                app.session_up(now, &mut out);
            } else {
                app.session_failed("no route", now, &mut out);
            }
        }
        done.extend(told(&out));
    }
    done
}

#[test]
fn what_is_due_is_done_in_order() {
    let mut app = opened(&[], true, Mode::Observe);
    let mut out = Vec::new();
    app.handle_stdin(b"x".to_vec(), 0, &mut out);
    app.hint("hello", 0, &mut out);
    app.settle_at = Some(SECOND);
    assert_eq!(
        wake_up(&mut app, None, Some(SECOND), 2 * SECOND, true),
        [
            "reset",
            "spawn control 120x40 2",
            "send {\"bytes\":\"eA==\",\"type\":\"terminal.input\"}\n",
            "poll",
            "status CONTROL — ctrl+\\ to release",
            "status ",
            "paint",
            "poll",
            "expire",
            "paint",
        ]
    );
    let idle_at = app.idle_at();
    assert!(wake_up(&mut app, idle_at, None, 2 * SECOND, true).is_empty());
}

#[test]
fn a_failed_switch_is_not_retried_at_once() {
    let mut app = opened(&[], true, Mode::Observe);
    let mut out = Vec::new();
    app.handle_stdin(b"x".to_vec(), 0, &mut out);
    assert_eq!(
        wake_up(&mut app, None, None, SECOND, false),
        [
            "reset",
            "spawn control 120x40 2",
            "status reconnecting in 1s (control) — no route",
            "paint",
        ]
    );
    assert_eq!(app.reconnect_at, Some((2 * SECOND, Mode::Control)));
    assert_eq!(wake_up(&mut app, None, None, 2 * SECOND, true)[1], "spawn control 120x40 3");
    assert_eq!(app.session, Some(Session { gen: 3, mode: Mode::Control }));
}
