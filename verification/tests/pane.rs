use herdr_mirror::args::parse_args;
use herdr_mirror::config::HostKind;
use herdr_mirror::mode::{initial_mode, known_size, size_is_trusted, Mode};
use herdr_mirror::mouse::{
    contains_wheel_press, has_mouse_seq, mouse_action, parse_mouse, route_input, MouseAction, Scroll,
};
use herdr_mirror::session::sh_quote;

#[test]
fn wheel_always_semantic_scroll_even_on_tui_foreground() {
    // remote foreground classified as a full-screen program: the wheel must
    // still produce a semantic scroll, not a raw forward, or it silently does
    // nothing when the program doesn't consume mouse wheel input
    assert_eq!(mouse_action(Some(false), 64, true), MouseAction::Scroll { up: true });
    assert_eq!(mouse_action(Some(false), 65, true), MouseAction::Scroll { up: false });
    // unclassified/shell foreground: wheel still scrolls
    assert_eq!(mouse_action(None, 64, true), MouseAction::Scroll { up: true });
    assert_eq!(mouse_action(Some(true), 65, true), MouseAction::Scroll { up: false });
    // non-wheel clicks/drags keep the foreground-based routing
    assert_eq!(mouse_action(Some(false), 0, true), MouseAction::ForwardRaw);
    assert_eq!(mouse_action(Some(true), 0, true), MouseAction::Drop);
    assert_eq!(mouse_action(None, 0, true), MouseAction::Drop);
}

#[test]
fn sideways_wheel_and_wheel_releases() {
    assert_eq!(mouse_action(Some(false), 66, true), MouseAction::Drop);
    assert_eq!(mouse_action(Some(false), 67, false), MouseAction::Drop);
    assert_eq!(mouse_action(Some(false), 64, false), MouseAction::ForwardRaw);
    assert_eq!(mouse_action(Some(true), 64, false), MouseAction::Drop);
}

#[test]
fn mouse_parsing() {
    let seq = b"\x1b[<64;10;5M";
    let (btn, x, y, press, len) = parse_mouse(seq, 0).unwrap();
    assert_eq!((btn, x, y, press, len), (64, 10, 5, true, seq.len()));
    assert!(contains_wheel_press(seq));
    assert!(!contains_wheel_press(b"\x1b[<0;3;4M")); // click, not wheel
    assert!(!contains_wheel_press(b"\x1b[<64;10;5m")); // release, not press
    assert!(has_mouse_seq(b"xx\x1b[<0;1;1Myy"));
    assert!(!has_mouse_seq(b"plain text"));
}

#[test]
fn malformed_mouse_sequences_are_no_events() {
    for bad in [
        &b"\x1b[<"[..],
        b"\x1b[<1;2M",
        b"\x1b[<1;2;3",
        b"\x1b[<;2;3M",
        b"\x1b[<1;;3M",
        b"\x1b[<1;2;M",
        b"\x1b[<1;2;3;4M",
        b"\x1b[<1;2;3x",
        b"\x1b[1;2;3M",
        b"",
    ] {
        assert_eq!(parse_mouse(bad, 0), None, "{:?}", bad);
    }
    assert_eq!(parse_mouse(b"ab\x1b[<0;1;2mz", 2), Some((0, 1, 2, false, 9)));
    assert_eq!(parse_mouse(b"ab", 2), None);
}

#[test]
fn sh_quote_escapes_single_quotes() {
    assert_eq!(sh_quote("w9:p1"), "'w9:p1'");
    assert_eq!(sh_quote("a'b"), "'a'\\''b'");
    // overflow-proof mouse params: 11 digits saturate instead of panicking
    let (_, x, _, _, _) = parse_mouse(b"\x1b[<64;99999999999;1M", 0).unwrap();
    assert_eq!(x, u32::MAX);
}

#[test]
fn mouse_numbers_are_exact_up_to_the_limit() {
    assert_eq!(parse_mouse(b"\x1b[<4294967295;4294967296;007M", 0).unwrap().0, u32::MAX);
    assert_eq!(parse_mouse(b"\x1b[<4294967294;4294967296;007M", 0).unwrap().0, u32::MAX - 1);
    let (_, x, y, _, _) = parse_mouse(b"\x1b[<1;4294967296;007M", 0).unwrap();
    assert_eq!((x, y), (u32::MAX, 7));
}

#[test]
fn quoting_edge_cases() {
    assert_eq!(sh_quote(""), "''");
    assert_eq!(sh_quote("'"), "''\\'''");
    assert_eq!(sh_quote("$(x) \\ \n"), "'$(x) \\ \n'");
}

#[test]
fn input_is_parted_by_the_foreground() {
    let input = b"a\x1b[<64;3;4Mb\x1b[<0;1;1Mc\x1b[<65;5;6M";
    let scrolls = [Scroll { up: true, x: 3, y: 4 }, Scroll { up: false, x: 5, y: 6 }];
    let (found, rest) = route_input(input, Some(true));
    assert_eq!(found, scrolls);
    assert_eq!(rest, b"abc");
    let (found, rest) = route_input(input, Some(false));
    assert_eq!(found, scrolls);
    assert_eq!(rest, b"ab\x1b[<0;1;1Mc");
    assert_eq!(route_input(input, None).1, b"abc");
    let plain = b"\x1b[A hello \x1b[";
    assert_eq!(route_input(plain, None), (vec![], plain.to_vec()));
}

fn strings(words: &[&str]) -> Vec<String> {
    words.iter().map(|s| s.to_string()).collect()
}

#[test]
fn arg_parsing() {
    let argv: Vec<String> =
        ["work", "w9:p1", "--remote-bin", "/opt/herdr", "--cols", "176", "--rows", "66"]
            .iter()
            .map(|s| s.to_string())
            .collect();
    let a = parse_args(&argv).unwrap();
    assert_eq!(a.ssh_target, "work");
    assert_eq!(a.pane_target, "w9:p1");
    assert_eq!(a.remote_bin.as_deref(), Some("/opt/herdr"));
    assert_eq!((a.cols, a.rows), (176, 66));
    assert!(a.size_fixed);
    assert!(parse_args(&["onlyone".to_string()]).is_err());
    assert!(parse_args(&["a".into(), "b".into(), "--visibility-file".into(), "x".into()]).is_err());
}

#[test]
fn argument_defaults() {
    let a = parse_args(&strings(&["h", "p"])).unwrap();
    assert_eq!((a.cols, a.rows, a.control_idle_secs), (240, 72, 3600));
    assert!(!a.size_fixed && !a.dump && !a.always_control);
    assert!(a.remote_bin.is_none() && a.session.is_none() && a.ctl_path.is_none());
    assert!(a.container.is_none());
}

#[test]
fn every_option_is_read() {
    let a = parse_args(&strings(&[
        "--dump",
        "h",
        "--session",
        "s",
        "--control-idle",
        "+0",
        "--always-control",
        "--ctl-path",
        "/c",
        "p",
        "--container",
        "dev",
        "--docker-bin",
        "podman",
        "--rows",
        "7",
    ]))
    .unwrap();
    assert!(a.dump && a.always_control && a.size_fixed);
    assert_eq!((a.ssh_target.as_str(), a.pane_target.as_str()), ("h", "p"));
    assert_eq!(a.session.as_deref(), Some("s"));
    assert_eq!(a.control_idle_secs, 0);
    assert_eq!(a.ctl_path.as_deref(), Some("/c"));
    assert_eq!((a.cols, a.rows), (240, 7));
    let c = a.container.unwrap();
    assert_eq!(c.docker_bin, "podman");
    assert!(matches!(c.kind, HostKind::DockerContainer(ref n) if n == "dev"));
    let f = parse_args(&strings(&["h", "p", "--container-folder", "/w"])).unwrap().container.unwrap();
    assert_eq!(f.docker_bin, "docker");
    assert!(matches!(f.kind, HostKind::DockerFolder(ref n) if n == "/w"));
}

#[test]
fn options_may_repeat_and_stand_anywhere() {
    let a = parse_args(&strings(&["--cols", "1", "h", "--cols", "2", "p"])).unwrap();
    assert_eq!(a.cols, 2);
    let b = parse_args(&strings(&["h", "p", "--cols", "2"])).unwrap();
    assert_eq!((b.cols, b.ssh_target, b.pane_target), (a.cols, a.ssh_target, a.pane_target));
    // a value may look like an option
    assert_eq!(parse_args(&strings(&["h", "p", "--session", "--dump"])).unwrap().session.unwrap(), "--dump");
}

#[test]
fn argument_mistakes_are_named() {
    let wrong = |words: &[&str]| parse_args(&strings(words)).unwrap_err().message();
    assert_eq!(wrong(&["h", "p", "--cols"]), "--cols needs a value");
    assert_eq!(wrong(&["h", "p", "--cols", "x"]), "--cols must be a number");
    assert_eq!(wrong(&["h", "p", "--rows", "-1"]), "--rows must be a number");
    assert_eq!(wrong(&["h", "p", "--rows", ""]), "--rows must be a number");
    assert_eq!(wrong(&["h", "p", "--rows", "+"]), "--rows must be a number");
    assert_eq!(wrong(&["--control-idle", "18446744073709551616"]), "--control-idle must be a number");
    assert_eq!(wrong(&["h", "p", "--bogus"]), "unknown option: --bogus");
    assert_eq!(wrong(&["h", "-", "p"]), "unknown option: -");
    assert_eq!(
        wrong(&["h", "p", "q"]),
        "usage: herdr-mirror pane <ssh-target> <pane-target> [--remote-bin PATH] [--cols N --rows N] [--dump]"
    );
    assert_eq!(
        wrong(&["h", "p", "--container", "a", "--container-folder", "b"]),
        "--container and --container-folder are exclusive"
    );
    // the first mistake is the one that is named
    assert_eq!(wrong(&["--cols", "x", "--bogus"]), "--cols must be a number");
    assert_eq!(
        parse_args(&strings(&["h", "p", "--control-idle", "18446744073709551615"])).unwrap().control_idle_secs,
        u64::MAX
    );
}

// A server renders at 80x24 when no client is attached, and chrome only
// subtracts, so anything larger in either axis is provably a real viewport.

#[test]
fn a_placeholder_sized_pane_is_never_trusted() {
    // what a mirror pane is born as when nobody is watching: 80x24 less a
    // 26-col sidebar and the tab bar
    assert!(!size_is_trusted((54, 23)));
    // and the extremes of that layout, in case chrome is configured away
    assert!(!size_is_trusted((80, 24)));
    assert!(!size_is_trusted((80, 23)));
}

#[test]
fn an_ordinary_viewport_is_trusted_immediately() {
    assert!(size_is_trusted((141, 44)));
    assert!(size_is_trusted((133, 47)));
    // one axis is enough: a tall narrow pane cannot come from a 24-row floor
    assert!(size_is_trusted((60, 40)));
    assert!(size_is_trusted((200, 20)));
}

#[test]
fn initial_mode_is_read_only_unless_the_size_vouches_for_itself() {
    // the whole composition: only a trusted size under always_control opens
    // writable, because Control is what can resize the remote
    assert_eq!(initial_mode(true, (141, 44)), Mode::Control);
    assert_eq!(initial_mode(true, (54, 23)), Mode::Observe, "placeholder-sized");
    // without always_control we start read-only regardless
    assert_eq!(initial_mode(false, (141, 44)), Mode::Observe);
    assert_eq!(initial_mode(false, (54, 23)), Mode::Observe);
}

#[test]
fn a_small_client_is_not_trusted_at_birth_and_must_earn_control() {
    // A phone (45x18 -> pane 44x16) and moshi (50x25 -> 49x23) are real
    // viewports, but at birth they are indistinguishable from the placeholder.
    // They start read-only and the first resize or keystroke promotes them,
    // rather than being allowed to impose a size we cannot vouch for.
    assert!(!size_is_trusted((44, 16)));
    assert!(!size_is_trusted((49, 23)));
}

#[test]
fn an_unknown_terminal_size_counts_as_the_placeholder() {
    assert_eq!(known_size(None), (80, 24));
    assert_eq!(known_size(Some((0, 40))), (80, 24));
    assert_eq!(known_size(Some((100, 0))), (80, 24));
    assert_eq!(known_size(Some((100, 40))), (100, 40));
    assert_eq!(initial_mode(true, known_size(None)), Mode::Observe);
    assert_eq!(Mode::Observe.as_str(), "observe");
    assert_eq!(Mode::Control.as_str(), "control");
}
