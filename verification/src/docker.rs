//! Containers: finding them, running commands in them, and reading what docker
//! answers.

use vstd::prelude::*;

use crate::config::{HostKind, HostKindView};
use crate::error::{err, err_str, Error};
use crate::outside::{from_utf8_lossy, shown};
use crate::text::{
    has_text, holds_text, is_white, join2, join3, lines, lines_are_read_in_turn, lines_of,
    one_line_is_one_line, stands_at, starts_with_char, texts, texts_push, trim, trimmed,
    trimmed_start, trimming_is_final,
};

verus! {

/// Handle to a running container.
#[derive(Debug, Clone)]
pub struct Container {
    pub id: String,
    pub docker_bin: String,
}

/// What became of a command that was run with a time limit.
pub enum Outcome {
    /// it was not done in time
    TimedOut,
    /// it could not be run; in words, why
    Failed(String),
    /// it ran to its end
    Finished { ok: bool, stdout: Vec<u8>, stderr: Vec<u8> },
}

// ---------------------------------------------------------------------------
// finding containers

/// The filter that finds the containers of a host; or why there is none.
pub open spec fn filter_of(kind: HostKindView) -> Result<Seq<char>, Seq<char>> {
    match kind {
        HostKindView::Ssh => Err("container resolution called on an ssh host"@),
        HostKindView::DockerContainer(name) => Ok("name=^"@ + name + "$"@),
        HostKindView::DockerFolder(folder) => Ok("label=devcontainer.local_folder="@ + folder),
    }
}

/// The filter that finds the containers of a host. A name is pinned at both
/// ends, because docker would match it anywhere in a longer one.
pub fn docker_filter(kind: &HostKind) -> (r: Result<String, Error>)
    ensures
        match r {
            Ok(filter) => filter_of(kind@) == Ok::<_, Seq<char>>(filter@),
            Err(e) => filter_of(kind@) == Err::<Seq<char>, _>(e@),
        },
{
    match kind {
        HostKind::Ssh => Err(err_str("container resolution called on an ssh host")),
        HostKind::DockerContainer(name) => Ok(join3("name=^", name.as_str(), "$")),
        HostKind::DockerFolder(folder) => Ok(
            join2("label=devcontainer.local_folder=", folder.as_str()),
        ),
    }
}

/// The arguments of the docker command that lists the ids of matching
/// containers.
pub open spec fn ps_words(filter: Seq<char>) -> Seq<Seq<char>> {
    seq!["ps"@, "-q"@, "--filter"@, filter]
}

/// The arguments of the docker command that lists the ids of matching
/// containers.
pub fn ps_args(filter: &str) -> (v: Vec<String>)
    ensures
        texts(v@) == ps_words(filter@),
{
    broadcast use texts_push;

    let mut v: Vec<String> = Vec::new();
    v.push("ps".to_owned());
    v.push("-q".to_owned());
    v.push("--filter".to_owned());
    v.push(filter.to_owned());
    assert(texts(v@) =~= ps_words(filter@));
    v
}

/// What of `listed` is left when every line is trimmed and the empty ones are
/// taken out.
pub open spec fn kept_lines(listed: Seq<Seq<char>>) -> Seq<Seq<char>>
    decreases listed.len(),
{
    if listed.len() == 0 {
        Seq::empty()
    } else {
        let line = trimmed(listed.last());
        if line.len() == 0 {
            kept_lines(listed.drop_last())
        } else {
            kept_lines(listed.drop_last()).push(line)
        }
    }
}

/// Why a command failed, by what it wrote to its error output.
pub open spec fn fault(stderr: Seq<char>) -> Seq<char> {
    if trimmed(stderr).len() == 0 {
        "non-zero exit"@
    } else {
        trimmed(stderr)
    }
}

/// Why a command failed, by what it wrote to its error output.
pub fn fault_text(stderr: &str) -> (s: String)
    ensures
        s@ == fault(stderr@),
{
    let said = trim(stderr);
    if said.as_str().is_empty() {
        "non-zero exit".to_owned()
    } else {
        said
    }
}

/// The ids that a listing holds; or, where docker itself failed, why.
pub open spec fn listing(ok: bool, stdout: Seq<char>, stderr: Seq<char>) -> Result<
    Seq<Seq<char>>,
    Seq<char>,
> {
    if ok {
        Ok(kept_lines(lines_of(stdout)))
    } else {
        Err("docker ps failed: "@ + fault(stderr))
    }
}

/// The ids that a listing holds, from the texts that docker wrote.
pub fn listed_ids(ok: bool, stdout: &str, stderr: &str) -> (r: Result<Vec<String>, Error>)
    ensures
        match r {
            Ok(ids) => listing(ok, stdout@, stderr@) == Ok::<_, Seq<char>>(texts(ids@)),
            Err(e) => listing(ok, stdout@, stderr@) == Err::<Seq<Seq<char>>, _>(e@),
        },
{
    broadcast use texts_push;

    if !ok {
        let why = fault_text(stderr);
        return Err(err(join2("docker ps failed: ", why.as_str())));
    }
    let all = lines(stdout);
    let mut ids: Vec<String> = Vec::new();
    let mut i: usize = 0;
    let ghost listed = texts(all@);
    assert(texts(ids@) =~= kept_lines(listed.take(0)));
    while i < all.len()
        invariant
            i <= all@.len(),
            listed == texts(all@),
            texts(ids@) == kept_lines(listed.take(i as int)),
        decreases all@.len() - i,
    {
        let line = trim(all[i].as_str());
        assert(listed.take(i + 1).drop_last() =~= listed.take(i as int));
        assert(listed.take(i + 1).last() == all@[i as int]@);
        if !line.as_str().is_empty() {
            ids.push(line);
        }
        i += 1;
    }
    assert(listed.take(i as int) =~= listed);
    Ok(ids)
}

/// Turns a finished listing into ids, newest first as docker lists them, and
/// keeps the reason where docker failed: a stopped docker daemon is not the same
/// as nothing running.
pub fn parse_ps(ok: bool, stdout: &[u8], stderr: &[u8]) -> (r: Result<Vec<String>, Error>)
    ensures
        match r {
            Ok(ids) => listing(ok, shown(stdout@), shown(stderr@)) == Ok::<_, Seq<char>>(
                texts(ids@),
            ),
            Err(e) => listing(ok, shown(stdout@), shown(stderr@)) == Err::<Seq<Seq<char>>, _>(e@),
        },
{
    let out = from_utf8_lossy(stdout);
    let errors = from_utf8_lossy(stderr);
    listed_ids(ok, out.as_str(), errors.as_str())
}

/// What is said of a command that could not be run.
pub open spec fn cannot_run(program: Seq<char>, why: Seq<char>) -> Seq<char> {
    "cannot run "@ + program + ": "@ + why
}

/// What is said of a command that could not be run: the program, and why.
pub fn cannot_run_text(program: &str, why: &str) -> (s: String)
    ensures
        s@ == cannot_run(program@, why@),
{
    let mut s = join3("cannot run ", program, ": ");
    s.append(why);
    s
}

/// How many milliseconds docker has to list containers, or to look for socat in
/// one.
pub const DOCKER_WAIT_MILLIS: u64 = 10_000;

/// The ids that a listing gave, or why there are none to be had.
pub open spec fn resolved(docker_bin: Seq<char>, outcome: Outcome) -> Result<
    Seq<Seq<char>>,
    Seq<char>,
> {
    match outcome {
        Outcome::TimedOut => Err("docker ps timed out"@),
        Outcome::Failed(why) => Err(cannot_run(docker_bin, why@)),
        Outcome::Finished { ok, stdout, stderr } => listing(ok, shown(stdout@), shown(stderr@)),
    }
}

/// The container ids of a host, newest first, from what became of the listing.
/// None at all means that nothing is running, which is no error.
pub fn resolve_reply(docker_bin: &str, outcome: &Outcome) -> (r: Result<Vec<String>, Error>)
    ensures
        match r {
            Ok(ids) => resolved(docker_bin@, *outcome) == Ok::<_, Seq<char>>(texts(ids@)),
            Err(e) => resolved(docker_bin@, *outcome) == Err::<Seq<Seq<char>>, _>(e@),
        },
{
    match outcome {
        Outcome::TimedOut => Err(err_str("docker ps timed out")),
        Outcome::Failed(why) => Err(err(cannot_run_text(docker_bin, why.as_str()))),
        Outcome::Finished { ok, stdout, stderr } => parse_ps(
            *ok,
            stdout.as_slice(),
            stderr.as_slice(),
        ),
    }
}

// ---------------------------------------------------------------------------
// finding one container, with a deadline

/// What a look at the running listing shows.
pub enum Poll {
    /// it has ended, and this is what it wrote
    Ended { ok: bool, stdout: Vec<u8>, stderr: Vec<u8> },
    /// it cannot be looked at, or what it wrote cannot be read; in words, why
    Failed(String),
    /// it still runs
    Running,
}

/// What to do after a look at the running listing.
pub enum ResolveStep {
    /// this is the container
    Done(String),
    /// the search has failed
    Fail(Error),
    /// the search has failed, and the listing is to be killed and reaped
    GiveUp(Error),
    /// look again in a moment
    Wait,
}

/// What a `ResolveStep` says.
pub enum ResolveStepView {
    Done(Seq<char>),
    Fail(Seq<char>),
    GiveUp(Seq<char>),
    Wait,
}

impl View for ResolveStep {
    type V = ResolveStepView;

    open spec fn view(&self) -> ResolveStepView {
        match self {
            ResolveStep::Done(id) => ResolveStepView::Done(id@),
            ResolveStep::Fail(e) => ResolveStepView::Fail(e@),
            ResolveStep::GiveUp(e) => ResolveStepView::GiveUp(e@),
            ResolveStep::Wait => ResolveStepView::Wait,
        }
    }
}

/// How many milliseconds a session may spend on finding its container. It is
/// bounded, because nothing else happens in the pane meanwhile.
pub const SESSION_RESOLVE_MILLIS: u64 = 5_000;

/// How long to wait between two looks, in milliseconds.
pub const RESOLVE_PAUSE_MILLIS: u64 = 20;

/// What to do after a look at the running listing, `elapsed` into a search that
/// may take `wait`.
pub open spec fn resolve_next(
    filter: Seq<char>,
    poll: Poll,
    elapsed: u128,
    wait: u128,
) -> ResolveStepView {
    match poll {
        Poll::Ended { ok, stdout, stderr } => match listing(ok, shown(stdout@), shown(stderr@)) {
            Err(e) => ResolveStepView::Fail(e),
            Ok(ids) => if ids.len() == 0 {
                ResolveStepView::Fail("no running container matching "@ + filter)
            } else {
                ResolveStepView::Done(ids[0])
            },
        },
        Poll::Failed(why) => ResolveStepView::Fail("docker ps: "@ + why@),
        Poll::Running => if elapsed >= wait {
            ResolveStepView::GiveUp("docker ps timed out"@)
        } else {
            ResolveStepView::Wait
        },
    }
}

/// What to do after a look at the running listing, `elapsed` into a search that
/// may take `wait`, both in nanoseconds. The newest container is the one that
/// is wanted.
pub fn resolve_step(filter: &str, poll: &Poll, elapsed: u128, wait: u128) -> (step: ResolveStep)
    ensures
        step@ == resolve_next(filter@, *poll, elapsed, wait),
{
    match poll {
        Poll::Ended { ok, stdout, stderr } => match parse_ps(
            *ok,
            stdout.as_slice(),
            stderr.as_slice(),
        ) {
            Err(e) => ResolveStep::Fail(e),
            Ok(ids) => if ids.len() == 0 {
                ResolveStep::Fail(err(join2("no running container matching ", filter)))
            } else {
                assert(texts(ids@)[0] == ids@[0]@);
                ResolveStep::Done(ids[0].clone())
            },
        },
        Poll::Failed(why) => ResolveStep::Fail(err(join2("docker ps: ", why.as_str()))),
        Poll::Running => if elapsed >= wait {
            ResolveStep::GiveUp(err_str("docker ps timed out"))
        } else {
            ResolveStep::Wait
        },
    }
}

// ---------------------------------------------------------------------------
// running commands in a container

/// The arguments of the docker command that looks for socat in a container.
pub open spec fn probe_words(cid: Seq<char>) -> Seq<Seq<char>> {
    seq!["exec"@, cid, "sh"@, "-c"@, "command -v socat"@]
}

/// The arguments of the docker command that looks for socat in a container.
pub fn probe_args(cid: &str) -> (v: Vec<String>)
    ensures
        texts(v@) == probe_words(cid@),
{
    broadcast use texts_push;

    let mut v: Vec<String> = Vec::new();
    v.push("exec".to_owned());
    v.push(cid.to_owned());
    v.push("sh".to_owned());
    v.push("-c".to_owned());
    v.push("command -v socat".to_owned());
    assert(texts(v@) =~= probe_words(cid@));
    v
}

/// Why a container cannot be bridged, if it cannot: socat has to be there.
pub open spec fn probed(docker_bin: Seq<char>, outcome: Outcome) -> Option<Seq<char>> {
    match outcome {
        Outcome::TimedOut => Some("probing for socat timed out"@),
        Outcome::Failed(why) => Some(cannot_run(docker_bin, why@)),
        Outcome::Finished { ok, stdout, .. } => if ok && stdout@.len() > 0 {
            None
        } else {
            Some(
                "container has no socat, which is needed to reach herdr's socket — install it in the image, or bind-mount the socket to the host"@,
            )
        },
    }
}

/// Whether a container has socat, from what became of the command that looks
/// for it.
pub fn probe_reply(docker_bin: &str, outcome: &Outcome) -> (r: Result<(), Error>)
    ensures
        match r {
            Ok(_) => probed(docker_bin@, *outcome) is None,
            Err(e) => probed(docker_bin@, *outcome) == Some(e@),
        },
{
    match outcome {
        Outcome::TimedOut => Err(err_str("probing for socat timed out")),
        Outcome::Failed(why) => Err(err(cannot_run_text(docker_bin, why.as_str()))),
        Outcome::Finished { ok, stdout, .. } => if *ok && stdout.len() > 0 {
            Ok(())
        } else {
            Err(
                err_str(
                    "container has no socat, which is needed to reach herdr's socket — install it in the image, or bind-mount the socket to the host",
                ),
            )
        },
    }
}

/// What a command in a container printed; or why it has nothing to say.
pub open spec fn executed(docker_bin: Seq<char>, command: Seq<char>, outcome: Outcome) -> Result<
    Seq<char>,
    Seq<char>,
> {
    match outcome {
        Outcome::TimedOut => Err("docker exec timed out: "@ + command),
        Outcome::Failed(why) => Err(cannot_run(docker_bin, why@)),
        Outcome::Finished { ok, stdout, stderr } => if ok {
            Ok(trimmed(shown(stdout@)))
        } else {
            Err("docker exec failed ("@ + command + "): "@ + fault(shown(stderr@)))
        },
    }
}

/// What socat is told to connect to.
pub open spec fn socat_address(remote_sock: Seq<char>) -> Seq<char> {
    "UNIX-CONNECT:"@ + remote_sock
}

/// The arguments of the docker command that runs `command` in a container.
pub open spec fn exec_words(id: Seq<char>, command: Seq<char>) -> Seq<Seq<char>> {
    seq!["exec"@, id, "sh"@, "-c"@, command]
}

/// The arguments of the docker command that bridges one connection to the socket
/// in a container.
pub open spec fn relay_words(id: Seq<char>, remote_sock: Seq<char>) -> Seq<Seq<char>> {
    seq!["exec"@, "-i"@, id, "socat"@, "-"@, socat_address(remote_sock)]
}

impl Container {
    /// The arguments of the docker command that runs `command` in the
    /// container, in a shell that is not a login shell.
    pub fn exec_args(&self, command: &str) -> (v: Vec<String>)
        ensures
            texts(v@) == exec_words(self.id@, command@),
    {
        broadcast use texts_push;

        let mut v: Vec<String> = Vec::new();
        v.push("exec".to_owned());
        v.push(self.id.clone());
        v.push("sh".to_owned());
        v.push("-c".to_owned());
        v.push(command.to_owned());
        assert(texts(v@) =~= exec_words(self.id@, command@));
        v
    }

    /// What `command` printed in the container, from what became of it.
    pub fn exec_reply(&self, command: &str, outcome: &Outcome) -> (r: Result<String, Error>)
        ensures
            match r {
                Ok(out) => executed(self.docker_bin@, command@, *outcome) == Ok::<_, Seq<char>>(
                    out@,
                ),
                Err(e) => executed(self.docker_bin@, command@, *outcome) == Err::<Seq<char>, _>(e@),
            },
    {
        match outcome {
            Outcome::TimedOut => Err(err(join2("docker exec timed out: ", command))),
            Outcome::Failed(why) => Err(
                err(cannot_run_text(self.docker_bin.as_str(), why.as_str())),
            ),
            Outcome::Finished { ok, stdout, stderr } => if *ok {
                let out = from_utf8_lossy(stdout.as_slice());
                Ok(trim(out.as_str()))
            } else {
                let errors = from_utf8_lossy(stderr.as_slice());
                let why = fault_text(errors.as_str());
                let mut s = join3("docker exec failed (", command, "): ");
                s.append(why.as_str());
                Err(err(s))
            },
        }
    }

    /// The arguments of the docker command that bridges one connection to the
    /// socket in the container.
    pub fn relay_args(&self, remote_sock: &str) -> (v: Vec<String>)
        ensures
            texts(v@) == relay_words(self.id@, remote_sock@),
    {
        broadcast use texts_push;

        let mut v: Vec<String> = Vec::new();
        v.push("exec".to_owned());
        v.push("-i".to_owned());
        v.push(self.id.clone());
        v.push("socat".to_owned());
        v.push("-".to_owned());
        v.push(join2("UNIX-CONNECT:", remote_sock));
        assert(texts(v@) =~= relay_words(self.id@, remote_sock@));
        v
    }
}

// ---------------------------------------------------------------------------
// the socket's path

/// Whether socat reads `s` as more than a name: a comma starts options, two
/// exclamation marks a second address.
pub open spec fn has_metacharacters(s: Seq<char>) -> bool {
    holds_text(s, ","@) || holds_text(s, "!!"@)
}

/// What is wrong with a socket's path, if anything.
pub open spec fn path_fault(sock: Seq<char>) -> Option<Seq<char>> {
    if sock.len() == 0 || sock[0] != '/' {
        Some("remote socket path is not absolute: "@ + sock)
    } else if has_metacharacters(sock) {
        Some("remote socket path has socat metacharacters: "@ + sock)
    } else {
        None
    }
}

/// Whether a path from the remote side may be put into a socat address.
pub fn validate_socket_path(sock: &str) -> (r: Result<(), Error>)
    ensures
        match r {
            Ok(_) => path_fault(sock@) is None,
            Err(e) => path_fault(sock@) == Some(e@),
        },
{
    if !starts_with_char(sock, '/') {
        return Err(err(join2("remote socket path is not absolute: ", sock)));
    }
    if has_text(sock, ",") || has_text(sock, "!!") {
        return Err(err(join2("remote socket path has socat metacharacters: ", sock)));
    }
    Ok(())
}

// ---------------------------------------------------------------------------
// laws

/// No two hosts share a filter: containers of different names, devcontainers of
/// different folders, and a container and a devcontainer, are told apart.
pub proof fn filters_tell_hosts_apart(a: HostKindView, b: HostKindView)
    requires
        filter_of(a) is Ok,
        filter_of(a) == filter_of(b),
    ensures
        a == b,
{
    reveal_strlit("name=^");
    reveal_strlit("$");
    reveal_strlit("label=devcontainer.local_folder=");
    let f = filter_of(a)->Ok_0;
    let g = filter_of(b)->Ok_0;
    assert(f == g);
    assert(f[0] == g[0]);
    match (a, b) {
        (HostKindView::DockerContainer(x), HostKindView::DockerContainer(y)) => {
            assert(x =~= f.subrange(6, f.len() - 1));
            assert(y =~= g.subrange(6, g.len() - 1));
        },
        (HostKindView::DockerFolder(x), HostKindView::DockerFolder(y)) => {
            assert(x =~= f.skip("label=devcontainer.local_folder="@.len() as int));
            assert(y =~= g.skip("label=devcontainer.local_folder="@.len() as int));
        },
        _ => {},
    }
}

/// A listing that docker failed at is never taken for one without containers,
/// and one that docker ended well is never taken for a failure.
pub proof fn failure_is_no_empty_listing(ok: bool, stdout: Seq<char>, stderr: Seq<char>)
    ensures
        ok <==> listing(ok, stdout, stderr) is Ok,
{
}

/// Every id of a listing is not empty and has no white space at either end.
pub proof fn listed_ids_are_clean(listed: Seq<Seq<char>>, i: int)
    requires
        0 <= i < kept_lines(listed).len(),
    ensures
        kept_lines(listed)[i].len() > 0,
        trimmed(kept_lines(listed)[i]) == kept_lines(listed)[i],
    decreases listed.len(),
{
    if listed.len() > 0 {
        trimming_is_final(listed.last());
        if i < kept_lines(listed.drop_last()).len() {
            listed_ids_are_clean(listed.drop_last(), i);
        }
    }
}

/// Once its time is up, the search for a container is never told to wait on.
pub proof fn the_search_ends_in_time(filter: Seq<char>, poll: Poll, elapsed: u128, wait: u128)
    requires
        elapsed >= wait,
    ensures
        resolve_next(filter, poll, elapsed, wait) != ResolveStepView::Wait,
{
}

/// An accepted path, put behind the address type, is still one address without
/// options: the whole address holds no metacharacter.
pub proof fn accepted_paths_make_one_address(sock: Seq<char>)
    requires
        path_fault(sock) is None,
    ensures
        !has_metacharacters(socat_address(sock)),
{
    reveal_strlit("UNIX-CONNECT:");
    reveal_strlit(",");
    reveal_strlit("!!");
    let whole = socat_address(sock);
    let n = "UNIX-CONNECT:"@.len() as int;
    assert(n == 13);
    if holds_text(whole, ","@) {
        let at = choose|at: int| stands_at(whole, ","@, at);
        assert(whole.subrange(at, at + 1)[0] == ',');
        assert(whole[at] == ',');
        assert(at >= n);
        assert(sock.subrange(at - n, at - n + 1) =~= ","@);
        assert(stands_at(sock, ","@, at - n));
    }
    if holds_text(whole, "!!"@) {
        let at = choose|at: int| stands_at(whole, "!!"@, at);
        assert(whole.subrange(at, at + 2)[0] == '!');
        assert(whole[at] == '!');
        assert(at >= n);
        assert(sock.subrange(at - n, at - n + 2) =~= whole.subrange(at, at + 2));
        assert(stands_at(sock, "!!"@, at - n));
    }
}

// ---------------------------------------------------------------------------
// what docker is asked, and how its answers are read

/// A container is found by its whole name, a devcontainer by its whole folder,
/// each as it was given; a host over ssh has no containers.
pub proof fn filters_name_what_is_sought(text: Seq<char>)
    ensures
        filter_of(HostKindView::Ssh) == Err::<Seq<char>, _>(
            "container resolution called on an ssh host"@,
        ),
        ({
            let by_name = filter_of(HostKindView::DockerContainer(text));
            let filter = by_name->Ok_0;
            &&& by_name is Ok
            &&& filter.len() == text.len() + 7
            &&& filter.take(6) == "name=^"@
            &&& filter.subrange(6, filter.len() - 1) == text
            &&& filter.last() == '$'
        }),
        ({
            let by_folder = filter_of(HostKindView::DockerFolder(text));
            let filter = by_folder->Ok_0;
            &&& by_folder is Ok
            &&& filter.len() == text.len() + 32
            &&& filter.take(32) == "label=devcontainer.local_folder="@
            &&& filter.skip(32) == text
        }),
{
    reveal_strlit("name=^");
    reveal_strlit("$");
    reveal_strlit("label=devcontainer.local_folder=");
    let a = filter_of(HostKindView::DockerContainer(text))->Ok_0;
    assert(a.take(6) =~= "name=^"@);
    assert(a.subrange(6, a.len() - 1) =~= text);
    let b = filter_of(HostKindView::DockerFolder(text))->Ok_0;
    assert(b.take(32) =~= "label=devcontainer.local_folder="@);
    assert(b.skip(32) =~= text);
}

/// Whatever docker is given to work on is one argument of its own, as it is, and
/// nothing else of the call depends on it.
pub proof fn docker_is_called_as_it_should(a: Seq<char>, b: Seq<char>)
    ensures
        ps_words(a).len() == 4 && ps_words(a)[3] == a,
        ps_words(a).take(3) == seq!["ps"@, "-q"@, "--filter"@],
        probe_words(a).len() == 5 && probe_words(a)[0] == "exec"@ && probe_words(a)[1] == a,
        probe_words(a).skip(2) == seq!["sh"@, "-c"@, "command -v socat"@],
        exec_words(a, b).len() == 5 && exec_words(a, b)[0] == "exec"@ && exec_words(a, b)[1] == a,
        exec_words(a, b)[2] == "sh"@ && exec_words(a, b)[3] == "-c"@ && exec_words(a, b)[4] == b,
        relay_words(a, b).len() == 6 && relay_words(a, b)[0] == "exec"@,
        relay_words(a, b)[1] == "-i"@ && relay_words(a, b)[2] == a,
        relay_words(a, b)[3] == "socat"@ && relay_words(a, b)[4] == "-"@,
        relay_words(a, b)[5] == "UNIX-CONNECT:"@ + b,
{
    assert(ps_words(a).take(3) =~= seq!["ps"@, "-q"@, "--filter"@]);
    assert(probe_words(a).skip(2) =~= seq!["sh"@, "-c"@, "command -v socat"@]);
}

proof fn kept_in_turn(a: Seq<Seq<char>>, b: Seq<Seq<char>>)
    ensures
        kept_lines(a + b) == kept_lines(a) + kept_lines(b),
    decreases b.len(),
{
    if b.len() == 0 {
        assert(a + b =~= a);
        assert(kept_lines(a) + kept_lines(b) =~= kept_lines(a));
    } else {
        assert((a + b).drop_last() =~= a + b.drop_last());
        kept_in_turn(a, b.drop_last());
        assert(kept_lines(a + b) =~= kept_lines(a) + kept_lines(b));
    }
}

/// A listing is read line by line, in order: what stands behind a newline is read
/// as if it stood alone, and comes after what stands before it.
pub proof fn listings_are_read_in_turn(a: Seq<char>, b: Seq<char>, stderr: Seq<char>)
    requires
        a.len() > 0 && a.last() == '\n',
    ensures
        listing(true, a + b, stderr) == Ok::<_, Seq<char>>(
            listing(true, a, stderr)->Ok_0 + listing(true, b, stderr)->Ok_0,
        ),
{
    lines_are_read_in_turn(a, b);
    kept_in_turn(lines_of(a), lines_of(b));
}

/// A line of a listing gives its text without the white space around it, whether
/// a newline follows or not, and nothing where there is no more to it.
pub proof fn a_line_gives_one_id(line: Seq<char>, stderr: Seq<char>)
    requires
        forall|i: int| 0 <= i < line.len() ==> line[i] != '\n',
    ensures
        trimmed(line).len() == 0 ==> listing(true, line, stderr)->Ok_0.len() == 0 && listing(
            true,
            line.push('\n'),
            stderr,
        )->Ok_0.len() == 0,
        trimmed(line).len() > 0 ==> listing(true, line, stderr)->Ok_0 == seq![trimmed(line)]
            && listing(true, line.push('\n'), stderr)->Ok_0 == seq![trimmed(line)],
{
    one_line_is_one_line(line);
    let ended = lines_of(line.push('\n'));
    assert(ended =~= seq![ended[0]]);
    assert(ended.drop_last() =~= Seq::empty());
    assert(kept_lines(ended.drop_last()) =~= Seq::empty());
    if line.len() > 0 {
        assert(seq![line].drop_last() =~= Seq::empty());
        if line.last() == '\r' {
            a_return_is_white_space(line);
        }
    } else {
        assert(trimmed(line).len() == 0);
    }
    if trimmed(line).len() > 0 {
        assert(kept_lines(ended) =~= seq![trimmed(line)]);
        assert(kept_lines(lines_of(line)) =~= seq![trimmed(line)]);
    }
}

/// A carriage return at the end is trimmed with the rest.
proof fn a_return_is_white_space(line: Seq<char>)
    requires
        line.len() > 0,
        line.last() == '\r',
    ensures
        trimmed(line.drop_last()) == trimmed(line),
    decreases line.len(),
{
    let short = line.drop_last();
    if short.len() > 0 && is_white(short.first()) {
        a_return_is_white_space(line.drop_first());
        assert(line.drop_first().drop_last() =~= short.drop_first());
    } else if short.len() == 0 {
        assert(line.drop_first() =~= Seq::empty());
        assert(trimmed_start(line) == trimmed_start(line.drop_first()));
        assert(short =~= Seq::empty());
    } else {
        assert(trimmed_start(line) == line);
        assert(trimmed_start(short) == short);
    }
}

/// A command that failed is quoted with what it wrote to its error output, without
/// the white space around it; one that wrote nothing is said to have failed. What
/// it wrote elsewhere does not matter.
pub proof fn failures_say_why(stdout: Seq<char>, stderr: Seq<char>)
    ensures
        trimmed(stderr).len() > 0 ==> listing(false, stdout, stderr) == Err::<Seq<Seq<char>>, _>(
            "docker ps failed: "@ + trimmed(stderr),
        ),
        trimmed(stderr).len() == 0 ==> listing(false, stdout, stderr) == Err::<Seq<Seq<char>>, _>(
            "docker ps failed: "@ + "non-zero exit"@,
        ),
        trimmed(stderr).len() > 0 ==> fault(stderr) == trimmed(stderr),
        trimmed(stderr).len() == 0 ==> fault(stderr) == "non-zero exit"@,
{
}

/// What is made of a listing that ran with a time limit: nothing but its end gives
/// ids, and each other outcome says what happened, and to which program.
pub proof fn listings_have_their_outcome(docker_bin: Seq<char>, outcome: Outcome)
    ensures
        outcome is TimedOut ==> resolved(docker_bin, outcome) == Err::<Seq<Seq<char>>, _>(
            "docker ps timed out"@,
        ),
        outcome matches Outcome::Failed(why) ==> resolved(docker_bin, outcome) == Err::<
            Seq<Seq<char>>,
            _,
        >("cannot run "@ + docker_bin + ": "@ + why@),
        outcome matches Outcome::Finished { ok, stdout, stderr } ==> {
            &&& resolved(docker_bin, outcome) is Ok <==> ok
            &&& resolved(docker_bin, outcome) == listing(ok, shown(stdout@), shown(stderr@))
        },
{
}

/// The search for one container: a listing that ended gives the container that it
/// names first; one that names none, or failed, ends the search with the reason.
/// One that still runs is waited for while there is time, and given up when there
/// is none.
pub proof fn the_search_finds_the_newest(
    filter: Seq<char>,
    poll: Poll,
    elapsed: u128,
    wait: u128,
)
    ensures
        ({
            let step = resolve_next(filter, poll, elapsed, wait);
            &&& poll is Running && elapsed < wait ==> step == ResolveStepView::Wait
            &&& poll is Running && elapsed >= wait ==> step == ResolveStepView::GiveUp(
                "docker ps timed out"@,
            )
            &&& poll matches Poll::Failed(why) ==> step == ResolveStepView::Fail(
                "docker ps: "@ + why@,
            )
            &&& poll matches Poll::Ended { ok, stdout, stderr } ==> {
                let listed = listing(ok, shown(stdout@), shown(stderr@));
                &&& !ok ==> step == ResolveStepView::Fail(
                    "docker ps failed: "@ + fault(shown(stderr@)),
                )
                &&& ok && listed->Ok_0.len() == 0 ==> step == ResolveStepView::Fail(
                    "no running container matching "@ + filter,
                )
                &&& ok && listed->Ok_0.len() > 0 ==> step == ResolveStepView::Done(
                    listed->Ok_0.first(),
                )
            }
        }),
{
}

/// A container has socat exactly where the command that looks for it ended well
/// and printed something; any other outcome says what is wrong.
pub proof fn socat_is_found_or_missed(docker_bin: Seq<char>, outcome: Outcome)
    ensures
        probed(docker_bin, outcome) is None <==> (outcome matches Outcome::Finished {
            ok,
            stdout,
            ..
        } && ok && stdout@.len() > 0),
        outcome is TimedOut ==> probed(docker_bin, outcome) == Some("probing for socat timed out"@),
        outcome matches Outcome::Failed(why) ==> probed(docker_bin, outcome) == Some(
            "cannot run "@ + docker_bin + ": "@ + why@,
        ),
        outcome is Finished && probed(docker_bin, outcome) is Some ==> probed(docker_bin, outcome)
            == Some(
            "container has no socat, which is needed to reach herdr's socket — install it in the image, or bind-mount the socket to the host"@,
        ),
{
}

/// A command in a container gives what it printed, without the white space around
/// it, exactly where it ended well; any other outcome says what happened to it.
pub proof fn commands_give_what_they_printed(
    docker_bin: Seq<char>,
    command: Seq<char>,
    outcome: Outcome,
)
    ensures
        executed(docker_bin, command, outcome) is Ok <==> (outcome matches Outcome::Finished {
            ok,
            ..
        } && ok),
        outcome matches Outcome::Finished { ok, stdout, stderr } ==> {
            &&& ok ==> executed(docker_bin, command, outcome)->Ok_0 == trimmed(shown(stdout@))
            &&& !ok ==> executed(docker_bin, command, outcome)->Err_0 == "docker exec failed ("@
                + command + "): "@ + fault(shown(stderr@))
        },
        outcome is TimedOut ==> executed(docker_bin, command, outcome)->Err_0
            == "docker exec timed out: "@ + command,
        outcome matches Outcome::Failed(why) ==> executed(docker_bin, command, outcome)->Err_0
            == "cannot run "@ + docker_bin + ": "@ + why@,
{
}

/// A path is accepted exactly where it starts with a slash, holds no comma and no
/// two exclamation marks in a row. A path that is not is named, with what is
/// wrong, and whether it is absolute is looked at first.
pub proof fn paths_are_accepted_or_named(sock: Seq<char>)
    ensures
        ({
            let absolute = sock.len() > 0 && sock[0] == '/';
            let comma = exists|i: int| 0 <= i < sock.len() && #[trigger] sock[i] == ',';
            let marks = exists|i: int|
                0 <= i < sock.len() - 1 && #[trigger] sock[i] == '!' && sock[i + 1] == '!';
            &&& path_fault(sock) is None <==> absolute && !comma && !marks
            &&& !absolute ==> path_fault(sock) == Some(
                "remote socket path is not absolute: "@ + sock,
            )
            &&& absolute && (comma || marks) ==> path_fault(sock) == Some(
                "remote socket path has socat metacharacters: "@ + sock,
            )
        }),
{
    reveal_strlit(",");
    reveal_strlit("!!");
    if holds_text(sock, ","@) {
        let at = choose|at: int| stands_at(sock, ","@, at);
        assert(sock.subrange(at, at + 1)[0] == ',');
        assert(sock[at] == ',');
    }
    if holds_text(sock, "!!"@) {
        let at = choose|at: int| stands_at(sock, "!!"@, at);
        assert(sock.subrange(at, at + 2)[0] == '!' && sock.subrange(at, at + 2)[1] == '!');
        assert(sock[at] == '!');
    }
    if exists|i: int| 0 <= i < sock.len() && #[trigger] sock[i] == ',' {
        let i = choose|i: int| 0 <= i < sock.len() && #[trigger] sock[i] == ',';
        assert(sock.subrange(i, i + 1) =~= ","@);
        assert(stands_at(sock, ","@, i));
    }
    if exists|i: int| 0 <= i < sock.len() - 1 && #[trigger] sock[i] == '!' && sock[i + 1] == '!' {
        let i = choose|i: int|
            0 <= i < sock.len() - 1 && #[trigger] sock[i] == '!' && sock[i + 1] == '!';
        assert(sock.subrange(i, i + 2) =~= "!!"@);
        assert(stands_at(sock, "!!"@, i));
    }
}

} // verus!
