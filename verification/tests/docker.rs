use herdr_mirror::config::HostKind;
use herdr_mirror::docker::{
    cannot_run_text, docker_filter, fault_text, listed_ids, parse_ps, probe_args, probe_reply,
    ps_args, resolve_reply, resolve_step, validate_socket_path, Container, Outcome, Poll, ResolveStep,
};
use herdr_mirror::relay::{
    exchange_result, exchange_step, AcceptStep, Accepts, ExchangeEvent, ExchangeStep,
};

#[test]
fn filters_are_anchored_or_labelled() {
    assert_eq!(
        docker_filter(&HostKind::DockerContainer("dev".into())).unwrap(),
        "name=^dev$",
        "unanchored would substring-match dev-staging"
    );
    assert_eq!(
        docker_filter(&HostKind::DockerFolder("/p".into())).unwrap(),
        "label=devcontainer.local_folder=/p"
    );
    assert!(docker_filter(&HostKind::Ssh).is_err());
}

#[test]
fn an_ssh_host_has_no_filter() {
    let e = docker_filter(&HostKind::Ssh).unwrap_err();
    assert_eq!(e.message(), "container resolution called on an ssh host");
}

/// A failed listing must not read as "nothing is running": that sends the user
/// to start a container that is already there.
#[test]
fn docker_failure_is_distinct_from_no_match() {
    let e = parse_ps(false, b"", b"Cannot connect to the Docker daemon").unwrap_err();
    assert!(e.message().contains("Cannot connect"), "{}", e.message());
    assert_eq!(parse_ps(true, b"", b"").unwrap(), Vec::<String>::new());
}

#[test]
fn parse_ps_returns_all_matches_newest_first() {
    let ids = parse_ps(true, b"aaa\nbbb\n", b"").unwrap();
    assert_eq!(ids, ["aaa", "bbb"]);
}

#[test]
fn listings_are_trimmed_and_blank_lines_dropped() {
    let ids = parse_ps(true, b"  aaa \r\n\n\t\n\xc2\xa0bbb", b"").unwrap();
    assert_eq!(ids, ["aaa", "bbb"]);
    assert_eq!(listed_ids(true, " \n \n", "ignored").unwrap(), Vec::<String>::new());
}

#[test]
fn invalid_output_is_replaced_not_refused() {
    let ids = parse_ps(true, b"a\xffb\n", b"").unwrap();
    assert_eq!(ids, ["a\u{fffd}b"]);
}

#[test]
fn a_silent_failure_is_named() {
    assert_eq!(parse_ps(false, b"aaa\n", b" \n").unwrap_err().message(), "docker ps failed: non-zero exit");
    assert_eq!(parse_ps(false, b"", b" no daemon \n").unwrap_err().message(), "docker ps failed: no daemon");
    assert_eq!(fault_text("  x\n"), "x");
    assert_eq!(fault_text(""), "non-zero exit");
}

#[test]
fn replies_to_a_listing() {
    assert_eq!(
        resolve_reply("docker", &Outcome::TimedOut).unwrap_err().message(),
        "docker ps timed out"
    );
    assert_eq!(
        resolve_reply("/x/docker", &Outcome::Failed("no such file".into())).unwrap_err().message(),
        "cannot run /x/docker: no such file"
    );
    let done = Outcome::Finished { ok: true, stdout: b"c1\n".to_vec(), stderr: Vec::new() };
    assert_eq!(resolve_reply("docker", &done).unwrap(), ["c1"]);
    assert_eq!(ps_args("name=^dev$"), ["ps", "-q", "--filter", "name=^dev$"]);
}

#[test]
fn a_wedged_listing_is_given_up_in_time() {
    let wait = 300_000_000u128;
    assert!(matches!(resolve_step("f", &Poll::Running, wait - 1, wait), ResolveStep::Wait));
    match resolve_step("f", &Poll::Running, wait, wait) {
        ResolveStep::GiveUp(e) => assert_eq!(e.message(), "docker ps timed out"),
        _ => panic!("must give up"),
    }
    // what has ended in time is used however late it is looked at
    let ended = Poll::Ended { ok: true, stdout: b"new\nold\n".to_vec(), stderr: Vec::new() };
    match resolve_step("f", &ended, wait * 2, wait) {
        ResolveStep::Done(id) => assert_eq!(id, "new"),
        _ => panic!("must be done"),
    }
}

#[test]
fn a_search_that_finds_nothing_says_so() {
    let none = Poll::Ended { ok: true, stdout: Vec::new(), stderr: Vec::new() };
    match resolve_step("name=^dev$", &none, 0, 1) {
        ResolveStep::Fail(e) => assert_eq!(e.message(), "no running container matching name=^dev$"),
        _ => panic!("must fail"),
    }
    let bad = Poll::Ended { ok: false, stdout: Vec::new(), stderr: b"boom".to_vec() };
    match resolve_step("f", &bad, 0, 1) {
        ResolveStep::Fail(e) => assert_eq!(e.message(), "docker ps failed: boom"),
        _ => panic!("must fail"),
    }
    match resolve_step("f", &Poll::Failed("lost".into()), 0, 1) {
        ResolveStep::Fail(e) => assert_eq!(e.message(), "docker ps: lost"),
        _ => panic!("must fail"),
    }
}

#[test]
fn socat_has_to_be_there() {
    assert_eq!(probe_args("c1"), ["exec", "c1", "sh", "-c", "command -v socat"]);
    let there = Outcome::Finished { ok: true, stdout: b"/usr/bin/socat\n".to_vec(), stderr: Vec::new() };
    assert!(probe_reply("docker", &there).is_ok());
    let missing = "container has no socat, which is needed to reach herdr's socket — install it in the image, or bind-mount the socket to the host";
    let silent = Outcome::Finished { ok: true, stdout: Vec::new(), stderr: Vec::new() };
    assert_eq!(probe_reply("docker", &silent).unwrap_err().message(), missing);
    let failed = Outcome::Finished { ok: false, stdout: b"x".to_vec(), stderr: Vec::new() };
    assert_eq!(probe_reply("docker", &failed).unwrap_err().message(), missing);
    assert_eq!(
        probe_reply("docker", &Outcome::TimedOut).unwrap_err().message(),
        "probing for socat timed out"
    );
    assert_eq!(
        probe_reply("docker", &Outcome::Failed("gone".into())).unwrap_err().message(),
        "cannot run docker: gone"
    );
}

#[test]
fn commands_in_a_container() {
    let c = Container { id: "c1".into(), docker_bin: "podman".into() };
    assert_eq!(c.exec_args("ls -l"), ["exec", "c1", "sh", "-c", "ls -l"]);
    let ok = Outcome::Finished { ok: true, stdout: b" {} \n".to_vec(), stderr: b"noise".to_vec() };
    assert_eq!(c.exec_reply("ls", &ok).unwrap(), "{}");
    let bad = Outcome::Finished { ok: false, stdout: Vec::new(), stderr: b" denied\n".to_vec() };
    assert_eq!(c.exec_reply("ls", &bad).unwrap_err().message(), "docker exec failed (ls): denied");
    assert_eq!(c.exec_reply("ls", &Outcome::TimedOut).unwrap_err().message(), "docker exec timed out: ls");
    assert_eq!(
        c.exec_reply("ls", &Outcome::Failed("gone".into())).unwrap_err().message(),
        "cannot run podman: gone"
    );
    assert_eq!(
        c.relay_args("/run/h.sock"),
        ["exec", "-i", "c1", "socat", "-", "UNIX-CONNECT:/run/h.sock"]
    );
}

/// The socket path comes from the remote side, so it is validated before being
/// spliced into socat's address grammar.
#[test]
fn rejects_socat_metacharacters_in_socket_path() {
    assert!(validate_socket_path("/root/.config/herdr/herdr.sock").is_ok());
    assert!(validate_socket_path("/tmp/x!!EXEC:/bin/sh").is_err(), "dual-address");
    assert!(validate_socket_path("/tmp/x,fork").is_err(), "option list");
    assert!(validate_socket_path("relative/path.sock").is_err(), "not absolute");
}

#[test]
fn path_faults_are_named() {
    assert_eq!(
        validate_socket_path("rel,x").unwrap_err().message(),
        "remote socket path is not absolute: rel,x"
    );
    assert_eq!(
        validate_socket_path("/a,b").unwrap_err().message(),
        "remote socket path has socat metacharacters: /a,b"
    );
    assert!(validate_socket_path("/a!b").is_ok(), "one mark is a name");
    assert!(validate_socket_path("").is_err());
}

#[test]
fn accepting_backs_off_and_gives_up() {
    let mut a = Accepts::new();
    let (log, step) = a.failed("EMFILE");
    assert_eq!(log, ["relay accept failed (1): EMFILE"]);
    assert_eq!(step, AcceptStep::Retry { after_millis: 200 });
    for _ in 0..3 {
        a.failed("EMFILE");
    }
    let (log, step) = a.failed("EMFILE");
    assert_eq!(
        log,
        ["relay accept failed (5): EMFILE", "relay: giving up on accept; host will reconnect"]
    );
    assert_eq!(step, AcceptStep::GiveUp);
    let mut b = Accepts::new();
    for _ in 0..4 {
        b.failed("x");
    }
    b.accepted();
    assert_eq!(b.failed("x").1, AcceptStep::Retry { after_millis: 200 });
}

#[test]
fn a_half_closed_client_still_gets_its_answer() {
    assert_eq!(exchange_step(&ExchangeEvent::ClientDone), ExchangeStep::ForwardEnd);
    assert_eq!(exchange_step(&ExchangeEvent::ContainerDone), ExchangeStep::Finish);
    assert_eq!(exchange_step(&ExchangeEvent::Stopped), ExchangeStep::Finish);
    assert!(exchange_result(" \n").is_ok());
    assert_eq!(exchange_result("E refused\n").unwrap_err().message(), "relay: E refused");
}

#[test]
fn a_program_that_cannot_be_started_is_named() {
    assert_eq!(cannot_run_text("podman", "not found"), "cannot run podman: not found");
}
