use herdr_mirror::args::parse_args;
use herdr_mirror::mode::Mode;
use herdr_mirror::mouse::Scroll;
use herdr_mirror::pane::frame_output;
use herdr_mirror::screen::{dump_text, with_overlay};
use herdr_mirror::session::{session_command, session_program, SessionLog};
use herdr_mirror::text::{
    chars_of, decimal_text, has_text, last_place, lines, parse_number, same_text, trim, white,
};
use herdr_mirror::wire::{
    input_line, input_message, release_line, resize_line, scroll_line, Frame,
};

fn strings(words: &[&str]) -> Vec<String> {
    words.iter().map(|s| s.to_string()).collect()
}

#[test]
fn white_space_is_what_unicode_says() {
    for n in 0..=0x10ffffu32 {
        if let Some(c) = char::from_u32(n) {
            assert_eq!(white(c), c.is_whitespace(), "{:x}", n);
        }
    }
}

#[test]
fn trimming_and_lines_agree_with_std() {
    for s in [
        "",
        " ",
        "\n",
        "\r\n",
        "a",
        " a b \t",
        "a\nb",
        "a\nb\n",
        "a\r\nb\r",
        "\n\na\n\n",
        "a\r\r\nb",
        "\u{2003}ä\u{3000}\u{a0}",
        "\r",
        "x\n\r\ny",
    ] {
        assert_eq!(trim(s), s.trim(), "{:?}", s);
        let expected: Vec<String> = s.lines().map(|l| l.to_string()).collect();
        assert_eq!(lines(s), expected, "{:?}", s);
    }
}

#[test]
fn numbers_agree_with_std() {
    for s in [
        "", "+", "-", "-0", "+0", "0", "007", "12", "1 ", " 1", "1_0", "٣", "++1", "a",
        "18446744073709551615", "18446744073709551616", "99999999999999999999999",
    ] {
        assert_eq!(parse_number(s, u64::MAX), s.parse::<u64>().ok(), "{:?}", s);
        assert_eq!(parse_number(s, 255), s.parse::<u8>().ok().map(|n| n as u64), "{:?}", s);
    }
    assert_eq!(parse_number("9", 5), None);
    for n in [0, 9, 10, 99, 100, 12345, u64::MAX] {
        assert_eq!(decimal_text(n), n.to_string());
        assert_eq!(parse_number(&decimal_text(n), u64::MAX), Some(n));
    }
}

#[test]
fn searching() {
    assert_eq!(last_place("abcab", "ab"), Some(3));
    assert_eq!(last_place("äbäb", "b"), Some(3));
    assert_eq!(last_place("ab", "abc"), None);
    assert_eq!(last_place("ab", ""), Some(2));
    assert!(has_text("a!!b", "!!"));
    assert!(!has_text("a!b!", "!!"));
    assert!(same_text("", "") && !same_text("a", "b") && !same_text("a", "ab"));
    assert_eq!(chars_of("aä"), ['a', 'ä']);
}

#[test]
fn messages_on_the_wire() {
    assert_eq!(input_line(b"hi"), "{\"bytes\":\"aGk=\",\"type\":\"terminal.input\"}\n");
    assert_eq!(input_line(b""), "{\"bytes\":\"\",\"type\":\"terminal.input\"}\n");
    assert_eq!(
        input_line(&[0, 0x1b, 0xff, b'\n']),
        "{\"bytes\":\"ABv/Cg==\",\"type\":\"terminal.input\"}\n"
    );
    assert_eq!(input_message("x"), "{\"bytes\":\"x\",\"type\":\"terminal.input\"}\n");
    assert_eq!(
        scroll_line(&Scroll { up: true, x: 10, y: 5 }),
        "{\"column\":9,\"direction\":\"up\",\"lines\":3,\"modifiers\":0,\"row\":4,\"source\":\"wheel\",\"type\":\"terminal.scroll\"}\n"
    );
    assert_eq!(resize_line(120, 7), "{\"cols\":120,\"rows\":7,\"type\":\"terminal.resize\"}\n");
    assert_eq!(release_line(), "{\"type\":\"terminal.release\"}\n");
}

#[test]
fn the_session_command() {
    assert_eq!(
        session_command("~/bin/h", Mode::Control, "it's", 120, 40),
        "exec ~/bin/h terminal session control 'it'\\''s' --cols 120 --rows 40"
    );
}

#[test]
fn what_carries_a_session() {
    let opts = strings(&["-o", "BatchMode=yes"]);
    let over_ssh = parse_args(&strings(&["host", "p"])).unwrap();
    let line = session_program(&over_ssh, &opts, "", "cmd");
    assert_eq!(line.program, "ssh");
    assert_eq!(line.args, ["-o", "BatchMode=yes", "host", "cmd"]);
    let inside =
        parse_args(&strings(&["host", "p", "--container", "dev", "--docker-bin", "podman"])).unwrap();
    let line = session_program(&inside, &opts, "c1", "cmd");
    assert_eq!(line.program, "podman");
    assert_eq!(line.args, ["exec", "-i", "c1", "sh", "-c", "cmd"]);
}

#[test]
fn why_a_session_ended() {
    let mut log = SessionLog::new();
    assert_eq!(log.exit_reason(), "");
    log.error_line("ssh: no route");
    log.error_line("");
    assert_eq!(log.exit_reason(), "ssh: no route");
    log.frame("terminal.frame", &Some("not a reason".to_string()));
    log.frame("terminal.closed", &None);
    assert_eq!(log.exit_reason(), "ssh: no route");
    log.frame("terminal.closed", &Some("pane gone".to_string()));
    assert_eq!(log.exit_reason(), "pane gone");
}

#[test]
fn error_output_is_kept_short() {
    let mut log = SessionLog::new();
    log.error_line(&"a".repeat(399));
    assert_eq!(log.exit_reason(), "a".repeat(399));
    log.error_line("b");
    assert_eq!(log.exit_reason(), format!("{}\nb", "a".repeat(397)));
    // the limit is in bytes, what is kept is in characters
    let mut wide = SessionLog::new();
    wide.error_line(&"ä".repeat(250));
    assert_eq!(wide.exit_reason(), "ä".repeat(250));
    wide.error_line(&"ö".repeat(300));
    assert_eq!(wide.exit_reason(), format!("{}\n{}", "ä".repeat(98), "ö".repeat(300)));
}

#[test]
fn overlays_join_the_synchronized_update() {
    assert_eq!(
        with_overlay("\x1b[?2026hx\x1b[?2026ly\x1b[?2026l", "OV"),
        "\x1b[?2026hx\x1b[?2026lyOV\x1b[?2026l"
    );
    assert_eq!(with_overlay("äx", "OV"), "äxOV");
    assert_eq!(with_overlay("ä\x1b[?2026lö", "OV"), "äOV\x1b[?2026lö");
    assert_eq!(with_overlay("x\x1b[?2026l", ""), "x\x1b[?2026l");
}

#[test]
fn frames_as_text() {
    assert_eq!(
        dump_text(Some(7), Some(true), 80, 24, &strings(&["", "a", "", "b c", ""])),
        "--- frame seq=Some(7) full=Some(true) 80x24 ---\na\nb c"
    );
    assert_eq!(
        dump_text(None, Some(false), 0, 0, &strings(&[])),
        "--- frame seq=None full=Some(false) 0x0 ---\n"
    );
    assert_eq!(dump_text(None, None, 0, 0, &strings(&["x"])), "--- frame seq=None full=None 0x0 ---\nx");
}

fn frame_with(bytes: &str) -> Frame {
    Frame {
        kind: "terminal.frame".to_string(),
        seq: None,
        full: None,
        width: None,
        height: None,
        bytes: Some(bytes.to_string()),
        reason: None,
    }
}

/// What an input line carries.
fn carried(line: &str) -> String {
    line.strip_prefix("{\"bytes\":\"")
        .and_then(|s| s.strip_suffix("\",\"type\":\"terminal.input\"}\n"))
        .unwrap()
        .to_string()
}

#[test]
fn base64_is_canonical() {
    for (bytes, text) in [
        ("", ""),
        ("f", "Zg=="),
        ("fo", "Zm8="),
        ("foo", "Zm9v"),
        ("foob", "Zm9vYg=="),
        ("fooba", "Zm9vYmE="),
        ("foobar", "Zm9vYmFy"),
        ("\u{7f}??>>", "fz8/Pj4="),
    ] {
        assert_eq!(carried(&input_line(bytes.as_bytes())), text);
        assert_eq!(frame_output(&frame_with(text)).unwrap(), bytes);
    }
    // padding that is missing, misplaced or too much, bits left over, and
    // characters from outside the alphabet
    for text in
        ["Zg", "Zg=", "Zg===", "Z===", "=", "====", "Zh==", "Zm9=", "Zm9v=", "Zg==Zg==", "Zm9\n", "Zm 9", "Zm-_", "ä"]
    {
        assert_eq!(frame_output(&frame_with(text)), None, "{:?}", text);
    }
}

#[test]
fn what_is_typed_can_be_read_back() {
    for n in 0..70usize {
        let typed: String = (0..n).map(|i| char::from(((i * 37 + n * 11) % 128) as u8)).collect();
        let line = input_line(typed.as_bytes());
        assert_eq!(line.lines().count(), 1);
        assert_eq!(carried(&line).len(), (n + 2) / 3 * 4);
        assert_eq!(frame_output(&frame_with(&carried(&line))).unwrap(), typed);
    }
}
