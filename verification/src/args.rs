//! The command line of the pane wrapper.

use vstd::prelude::*;

use crate::config::{HostKind, HostKindView};
use crate::error::{err, err_str, Error};
use crate::text::{join2, number_of, parse_number, same_text, starts_with_char, texts};

verus! {

/// What a pane is asked to show, and how.
#[derive(Debug, Clone)]
pub struct Args {
    pub ssh_target: String,
    pub pane_target: String,
    /// path of the remote binary; `None` lets the remote find it
    pub remote_bin: Option<String>,
    pub cols: usize,
    pub rows: usize,
    /// print plain text for each frame instead of drawing
    pub dump: bool,
    /// named session on the remote
    pub session: Option<String>,
    /// seconds without input after which control is released; 0 never does
    pub control_idle_secs: u64,
    /// `cols` and `rows` are the remote pane's real size with a margin, and are
    /// used as they are
    pub size_fixed: bool,
    /// start and stay in control
    pub always_control: bool,
    /// control socket that foreground polls reuse
    pub ctl_path: Option<String>,
    /// container to run in instead of going over ssh
    pub container: Option<ContainerArg>,
}

/// How the pane reaches its container: by name or folder, not by id, because a
/// rebuild changes the id.
#[derive(Debug, Clone)]
pub struct ContainerArg {
    pub kind: HostKind,
    pub docker_bin: String,
}

/// What a `ContainerArg` says.
pub struct ContainerArgView {
    pub kind: HostKindView,
    pub docker_bin: Seq<char>,
}

impl View for ContainerArg {
    type V = ContainerArgView;

    open spec fn view(&self) -> ContainerArgView {
        ContainerArgView { kind: self.kind@, docker_bin: self.docker_bin@ }
    }
}

/// What an optional string holds.
pub open spec fn optional_text(s: Option<String>) -> Option<Seq<char>> {
    match s {
        Some(t) => Some(t@),
        None => None,
    }
}

/// What `Args` say.
pub struct ArgsView {
    pub ssh_target: Seq<char>,
    pub pane_target: Seq<char>,
    pub remote_bin: Option<Seq<char>>,
    pub cols: nat,
    pub rows: nat,
    pub dump: bool,
    pub session: Option<Seq<char>>,
    pub control_idle_secs: nat,
    pub size_fixed: bool,
    pub always_control: bool,
    pub ctl_path: Option<Seq<char>>,
    pub container: Option<ContainerArgView>,
}

impl View for Args {
    type V = ArgsView;

    open spec fn view(&self) -> ArgsView {
        ArgsView {
            ssh_target: self.ssh_target@,
            pane_target: self.pane_target@,
            remote_bin: optional_text(self.remote_bin),
            cols: self.cols as nat,
            rows: self.rows as nat,
            dump: self.dump,
            session: optional_text(self.session),
            control_idle_secs: self.control_idle_secs as nat,
            size_fixed: self.size_fixed,
            always_control: self.always_control,
            ctl_path: optional_text(self.ctl_path),
            container: match self.container {
                Some(c) => Some(c@),
                None => None,
            },
        }
    }
}

// ---------------------------------------------------------------------------
// words

/// One thing that the command line says: an option with its value, or a word of
/// its own.
pub enum Token {
    RemoteBin(Seq<char>),
    Cols(nat),
    Rows(nat),
    Session(Seq<char>),
    ControlIdle(nat),
    CtlPath(Seq<char>),
    Container(Seq<char>),
    ContainerFolder(Seq<char>),
    DockerBin(Seq<char>),
    AlwaysControl,
    Dump,
    Word(Seq<char>),
}

/// Whether this option takes the next argument for its value.
pub open spec fn takes_value(option: Seq<char>) -> bool {
    ||| option == "--remote-bin"@
    ||| option == "--cols"@
    ||| option == "--rows"@
    ||| option == "--session"@
    ||| option == "--control-idle"@
    ||| option == "--ctl-path"@
    ||| option == "--container"@
    ||| option == "--container-folder"@
    ||| option == "--docker-bin"@
}

/// What an option that takes a value says with this one; nothing where the value
/// has to be a number and is none.
pub open spec fn with_value(option: Seq<char>, value: Seq<char>) -> Option<Token> {
    if option == "--cols"@ {
        match number_of(value, usize::MAX as nat) {
            Some(n) => Some(Token::Cols(n)),
            None => None,
        }
    } else if option == "--rows"@ {
        match number_of(value, usize::MAX as nat) {
            Some(n) => Some(Token::Rows(n)),
            None => None,
        }
    } else if option == "--control-idle"@ {
        match number_of(value, u64::MAX as nat) {
            Some(n) => Some(Token::ControlIdle(n)),
            None => None,
        }
    } else if option == "--remote-bin"@ {
        Some(Token::RemoteBin(value))
    } else if option == "--session"@ {
        Some(Token::Session(value))
    } else if option == "--ctl-path"@ {
        Some(Token::CtlPath(value))
    } else if option == "--container"@ {
        Some(Token::Container(value))
    } else if option == "--container-folder"@ {
        Some(Token::ContainerFolder(value))
    } else {
        Some(Token::DockerBin(value))
    }
}

/// What the arguments say first, and how many of them say it; or what is wrong
/// there.
pub open spec fn first_token(argv: Seq<Seq<char>>) -> Result<(Token, int), Seq<char>> {
    let word = argv[0];
    if takes_value(word) {
        if argv.len() < 2 {
            Err(word + " needs a value"@)
        } else {
            match with_value(word, argv[1]) {
                Some(token) => Ok((token, 2)),
                None => Err(word + " must be a number"@),
            }
        }
    } else if word == "--always-control"@ {
        Ok((Token::AlwaysControl, 1))
    } else if word == "--dump"@ {
        Ok((Token::Dump, 1))
    } else if word.len() > 0 && word[0] == '-' {
        Err("unknown option: "@ + word)
    } else {
        Ok((Token::Word(word), 1))
    }
}

/// All that the arguments say, in order; or the first thing that is wrong.
pub open spec fn tokens(argv: Seq<Seq<char>>) -> Result<Seq<Token>, Seq<char>>
    decreases argv.len(),
{
    if argv.len() == 0 {
        Ok(Seq::empty())
    } else {
        match first_token(argv) {
            Err(e) => Err(e),
            Ok((token, used)) => match tokens(argv.skip(used)) {
                Err(e) => Err(e),
                Ok(rest) => Ok(seq![token] + rest),
            },
        }
    }
}

/// What the last token that `pick` picks says.
pub open spec fn last_said<T>(said: Seq<Token>, pick: spec_fn(Token) -> Option<T>) -> Option<T>
    decreases said.len(),
{
    if said.len() == 0 {
        None
    } else if pick(said.last()) is Some {
        pick(said.last())
    } else {
        last_said(said.drop_last(), pick)
    }
}

/// The words that belong to no option, in order.
pub open spec fn words(said: Seq<Token>) -> Seq<Seq<char>>
    decreases said.len(),
{
    if said.len() == 0 {
        Seq::empty()
    } else {
        match said.last() {
            Token::Word(w) => words(said.drop_last()).push(w),
            _ => words(said.drop_last()),
        }
    }
}

pub open spec fn remote_bin() -> spec_fn(Token) -> Option<Seq<char>> {
    |t: Token|
        match t {
            Token::RemoteBin(v) => Some(v),
            _ => None,
        }
}

pub open spec fn cols() -> spec_fn(Token) -> Option<nat> {
    |t: Token|
        match t {
            Token::Cols(v) => Some(v),
            _ => None,
        }
}

pub open spec fn rows() -> spec_fn(Token) -> Option<nat> {
    |t: Token|
        match t {
            Token::Rows(v) => Some(v),
            _ => None,
        }
}

pub open spec fn session() -> spec_fn(Token) -> Option<Seq<char>> {
    |t: Token|
        match t {
            Token::Session(v) => Some(v),
            _ => None,
        }
}

pub open spec fn control_idle() -> spec_fn(Token) -> Option<nat> {
    |t: Token|
        match t {
            Token::ControlIdle(v) => Some(v),
            _ => None,
        }
}

pub open spec fn ctl_path() -> spec_fn(Token) -> Option<Seq<char>> {
    |t: Token|
        match t {
            Token::CtlPath(v) => Some(v),
            _ => None,
        }
}

pub open spec fn container() -> spec_fn(Token) -> Option<Seq<char>> {
    |t: Token|
        match t {
            Token::Container(v) => Some(v),
            _ => None,
        }
}

pub open spec fn container_folder() -> spec_fn(Token) -> Option<Seq<char>> {
    |t: Token|
        match t {
            Token::ContainerFolder(v) => Some(v),
            _ => None,
        }
}

pub open spec fn docker_bin() -> spec_fn(Token) -> Option<Seq<char>> {
    |t: Token|
        match t {
            Token::DockerBin(v) => Some(v),
            _ => None,
        }
}

/// `given`, or `default` where nothing is given.
pub open spec fn or_default<T>(given: Option<T>, default: T) -> T {
    match given {
        Some(v) => v,
        None => default,
    }
}

/// The container that the options name.
pub open spec fn container_said(said: Seq<Token>) -> Option<ContainerArgView> {
    let docker_bin = or_default(last_said(said, docker_bin()), "docker"@);
    match (last_said(said, container()), last_said(said, container_folder())) {
        (Some(name), _) => Some(
            ContainerArgView { kind: HostKindView::DockerContainer(name), docker_bin },
        ),
        (None, Some(folder)) => Some(
            ContainerArgView { kind: HostKindView::DockerFolder(folder), docker_bin },
        ),
        (None, None) => None,
    }
}

/// What all the tokens together ask for.
pub open spec fn args_said(said: Seq<Token>) -> ArgsView {
    ArgsView {
        ssh_target: words(said)[0],
        pane_target: words(said)[1],
        remote_bin: last_said(said, remote_bin()),
        cols: or_default(last_said(said, cols()), 240),
        rows: or_default(last_said(said, rows()), 72),
        dump: said.contains(Token::Dump),
        session: last_said(said, session()),
        control_idle_secs: or_default(last_said(said, control_idle()), 3600),
        size_fixed: last_said(said, cols()) is Some || last_said(said, rows()) is Some,
        always_control: said.contains(Token::AlwaysControl),
        ctl_path: last_said(said, ctl_path()),
        container: container_said(said),
    }
}

/// What the command line asks for; or what is wrong with it, in words.
pub open spec fn args_asked(argv: Seq<Seq<char>>) -> Result<ArgsView, Seq<char>> {
    match tokens(argv) {
        Err(e) => Err(e),
        Ok(said) => if words(said).len() != 2 {
            Err(
                "usage: herdr-mirror pane <ssh-target> <pane-target> [--remote-bin PATH] [--cols N --rows N] [--dump]"@,
            )
        } else if last_said(said, container()) is Some && last_said(said, container_folder()) is Some {
            Err("--container and --container-folder are exclusive"@)
        } else {
            Ok(args_said(said))
        },
    }
}

// ---------------------------------------------------------------------------
// reading

/// A token as it is read.
enum Said {
    RemoteBin(String),
    Cols(usize),
    Rows(usize),
    Session(String),
    ControlIdle(u64),
    CtlPath(String),
    Container(String),
    ContainerFolder(String),
    DockerBin(String),
    AlwaysControl,
    Dump,
    Word(String),
}

impl View for Said {
    type V = Token;

    closed spec fn view(&self) -> Token {
        match self {
            Said::RemoteBin(v) => Token::RemoteBin(v@),
            Said::Cols(n) => Token::Cols(*n as nat),
            Said::Rows(n) => Token::Rows(*n as nat),
            Said::Session(v) => Token::Session(v@),
            Said::ControlIdle(n) => Token::ControlIdle(*n as nat),
            Said::CtlPath(v) => Token::CtlPath(v@),
            Said::Container(v) => Token::Container(v@),
            Said::ContainerFolder(v) => Token::ContainerFolder(v@),
            Said::DockerBin(v) => Token::DockerBin(v@),
            Said::AlwaysControl => Token::AlwaysControl,
            Said::Dump => Token::Dump,
            Said::Word(v) => Token::Word(v@),
        }
    }
}

fn expects_value(option: &str) -> (b: bool)
    ensures
        b == takes_value(option@),
{
    same_text(option, "--remote-bin") || same_text(option, "--cols") || same_text(option, "--rows")
        || same_text(option, "--session") || same_text(option, "--control-idle") || same_text(
        option,
        "--ctl-path",
    ) || same_text(option, "--container") || same_text(option, "--container-folder") || same_text(
        option,
        "--docker-bin",
    )
}

fn read_size(value: &str) -> (n: Option<usize>)
    ensures
        match n {
            Some(v) => number_of(value@, usize::MAX as nat) == Some(v as nat),
            None => number_of(value@, usize::MAX as nat) is None,
        },
{
    match parse_number(value, usize::MAX as u64) {
        Some(n) => Some(n as usize),
        None => None,
    }
}

fn read_value(option: &str, value: &String) -> (said: Option<Said>)
    ensures
        match said {
            Some(s) => with_value(option@, value@) == Some(s@),
            None => with_value(option@, value@) is None,
        },
{
    if same_text(option, "--cols") {
        match read_size(value.as_str()) {
            Some(n) => Some(Said::Cols(n)),
            None => None,
        }
    } else if same_text(option, "--rows") {
        match read_size(value.as_str()) {
            Some(n) => Some(Said::Rows(n)),
            None => None,
        }
    } else if same_text(option, "--control-idle") {
        match parse_number(value.as_str(), u64::MAX) {
            Some(n) => Some(Said::ControlIdle(n)),
            None => None,
        }
    } else {
        let text = value.clone();
        if same_text(option, "--remote-bin") {
            Some(Said::RemoteBin(text))
        } else if same_text(option, "--session") {
            Some(Said::Session(text))
        } else if same_text(option, "--ctl-path") {
            Some(Said::CtlPath(text))
        } else if same_text(option, "--container") {
            Some(Said::Container(text))
        } else if same_text(option, "--container-folder") {
            Some(Said::ContainerFolder(text))
        } else {
            Some(Said::DockerBin(text))
        }
    }
}

fn read_token(argv: &[String], at: usize) -> (r: Result<(Said, usize), Error>)
    requires
        at < argv@.len(),
    ensures
        match r {
            Ok((said, used)) => first_token(texts(argv@).skip(at as int)) == Ok::<_, Seq<char>>(
                (said@, used as int),
            ) && 0 < used <= argv@.len() - at,
            Err(e) => first_token(texts(argv@).skip(at as int)) == Err::<(Token, int), _>(e@),
        },
{
    let word = argv[at].as_str();
    let ghost rest = texts(argv@).skip(at as int);
    assert(rest[0] == word@);
    if expects_value(word) {
        if argv.len() - at < 2 {
            return Err(err(join2(word, " needs a value")));
        }
        assert(rest[1] == argv@[at + 1]@);
        return match read_value(word, &argv[at + 1]) {
            Some(said) => Ok((said, 2)),
            None => Err(err(join2(word, " must be a number"))),
        };
    }
    if same_text(word, "--always-control") {
        return Ok((Said::AlwaysControl, 1));
    }
    if same_text(word, "--dump") {
        return Ok((Said::Dump, 1));
    }
    if starts_with_char(word, '-') {
        return Err(err(join2("unknown option: ", word)));
    }
    Ok((Said::Word(word.to_owned()), 1))
}

proof fn said_next<T>(said: Seq<Token>, next: Token, pick: spec_fn(Token) -> Option<T>)
    ensures
        last_said(said.push(next), pick) == (if pick(next) is Some {
            pick(next)
        } else {
            last_said(said, pick)
        }),
{
    assert(said.push(next).drop_last() =~= said);
}

proof fn words_next(said: Seq<Token>, next: Token)
    ensures
        words(said.push(next)) == (match next {
            Token::Word(w) => words(said).push(w),
            _ => words(said),
        }),
{
    assert(said.push(next).drop_last() =~= said);
}

/// What has been read so far.
struct Draft {
    remote_bin: Option<String>,
    cols: Option<usize>,
    rows: Option<usize>,
    session: Option<String>,
    control_idle: Option<u64>,
    ctl_path: Option<String>,
    container: Option<String>,
    container_folder: Option<String>,
    docker_bin: Option<String>,
    always_control: bool,
    dump: bool,
    words: Vec<String>,
}

spec fn optional_size(n: Option<usize>) -> Option<nat> {
    match n {
        Some(v) => Some(v as nat),
        None => None,
    }
}

spec fn optional_secs(n: Option<u64>) -> Option<nat> {
    match n {
        Some(v) => Some(v as nat),
        None => None,
    }
}

impl Draft {
    spec fn holds(self, said: Seq<Token>) -> bool {
        &&& optional_text(self.remote_bin) == last_said(said, remote_bin())
        &&& optional_size(self.cols) == last_said(said, cols())
        &&& optional_size(self.rows) == last_said(said, rows())
        &&& optional_text(self.session) == last_said(said, session())
        &&& optional_secs(self.control_idle) == last_said(said, control_idle())
        &&& optional_text(self.ctl_path) == last_said(said, ctl_path())
        &&& optional_text(self.container) == last_said(said, container())
        &&& optional_text(self.container_folder) == last_said(said, container_folder())
        &&& optional_text(self.docker_bin) == last_said(said, docker_bin())
        &&& self.always_control == said.contains(Token::AlwaysControl)
        &&& self.dump == said.contains(Token::Dump)
        &&& texts(self.words@) == words(said)
    }

    fn take(&mut self, next: Said, Ghost(said): Ghost<Seq<Token>>)
        requires
            old(self).holds(said),
        ensures
            final(self).holds(said.push(next@)),
    {
        broadcast use crate::text::texts_push;

        proof {
            said_next(said, next@, remote_bin());
            said_next(said, next@, cols());
            said_next(said, next@, rows());
            said_next(said, next@, session());
            said_next(said, next@, control_idle());
            said_next(said, next@, ctl_path());
            said_next(said, next@, container());
            said_next(said, next@, container_folder());
            said_next(said, next@, docker_bin());
            words_next(said, next@);
            let after = said.push(next@);
            assert forall|t: Token| after.contains(t) == (said.contains(t) || t == next@) by {
                if said.contains(t) {
                    let i = choose|i: int| 0 <= i < said.len() && said[i] == t;
                    assert(after[i] == t);
                }
                if t == next@ {
                    assert(after[said.len() as int] == t);
                }
            }
        }
        match next {
            Said::RemoteBin(v) => self.remote_bin = Some(v),
            Said::Cols(n) => self.cols = Some(n),
            Said::Rows(n) => self.rows = Some(n),
            Said::Session(v) => self.session = Some(v),
            Said::ControlIdle(n) => self.control_idle = Some(n),
            Said::CtlPath(v) => self.ctl_path = Some(v),
            Said::Container(v) => self.container = Some(v),
            Said::ContainerFolder(v) => self.container_folder = Some(v),
            Said::DockerBin(v) => self.docker_bin = Some(v),
            Said::AlwaysControl => self.always_control = true,
            Said::Dump => self.dump = true,
            Said::Word(v) => self.words.push(v),
        }
    }
}

/// Reads the command line of the pane wrapper: two words, the ssh target and the
/// pane target, and options in any order, where the last of a kind counts.
pub fn parse_args(argv: &[String]) -> (r: Result<Args, Error>)
    ensures
        match r {
            Ok(args) => args_asked(texts(argv@)) == Ok::<_, Seq<char>>(args@),
            Err(e) => args_asked(texts(argv@)) == Err::<ArgsView, _>(e@),
        },
{
    let mut draft = Draft {
        remote_bin: None,
        cols: None,
        rows: None,
        session: None,
        control_idle: None,
        ctl_path: None,
        container: None,
        container_folder: None,
        docker_bin: None,
        always_control: false,
        dump: false,
        words: Vec::new(),
    };
    let ghost all = texts(argv@);
    let ghost mut said: Seq<Token> = Seq::empty();
    assert(texts(draft.words@) =~= Seq::empty());
    assert(all.skip(0) =~= all);
    proof {
        let t = tokens(all);
        assert(t matches Ok(rest) ==> said + rest =~= rest);
    }
    let mut i: usize = 0;
    while i < argv.len()
        invariant
            i <= argv@.len(),
            all == texts(argv@),
            all.len() == argv@.len(),
            draft.holds(said),
            match tokens(all.skip(i as int)) {
                Ok(rest) => tokens(all) == Ok::<_, Seq<char>>(said + rest),
                Err(e) => tokens(all) == Err::<Seq<Token>, _>(e),
            },
        decreases argv@.len() - i,
    {
        match read_token(argv, i) {
            Err(e) => {
                return Err(e);
            },
            Ok((next, used)) => {
                let ghost rest = tokens(all.skip(i + used));
                assert(all.skip(i as int).skip(used as int) =~= all.skip(i + used));
                proof {
                    if let Ok(r) = rest {
                        assert(said + (seq![next@] + r) =~= said.push(next@) + r);
                    }
                }
                let ghost token = next@;
                draft.take(next, Ghost(said));
                proof {
                    said = said.push(token);
                }
                i += used;
            },
        }
    }
    assert(all.skip(i as int) =~= Seq::empty());
    assert(said + Seq::<Token>::empty() =~= said);
    if draft.words.len() != 2 {
        return Err(
            err_str(
                "usage: herdr-mirror pane <ssh-target> <pane-target> [--remote-bin PATH] [--cols N --rows N] [--dump]",
            ),
        );
    }
    let docker_bin = match draft.docker_bin {
        Some(path) => path,
        None => "docker".to_owned(),
    };
    let container = match (draft.container, draft.container_folder) {
        (Some(_), Some(_)) => {
            return Err(err_str("--container and --container-folder are exclusive"));
        },
        (Some(name), None) => Some(
            ContainerArg { kind: HostKind::DockerContainer(name), docker_bin },
        ),
        (None, Some(folder)) => Some(
            ContainerArg { kind: HostKind::DockerFolder(folder), docker_bin },
        ),
        (None, None) => None,
    };
    assert(texts(draft.words@)[0] == draft.words@[0]@);
    assert(texts(draft.words@)[1] == draft.words@[1]@);
    let size_fixed = draft.cols.is_some() || draft.rows.is_some();
    Ok(
        Args {
            ssh_target: draft.words[0].clone(),
            pane_target: draft.words[1].clone(),
            remote_bin: draft.remote_bin,
            cols: draft.cols.unwrap_or(240),
            rows: draft.rows.unwrap_or(72),
            dump: draft.dump,
            session: draft.session,
            control_idle_secs: draft.control_idle.unwrap_or(3600),
            size_fixed,
            always_control: draft.always_control,
            ctl_path: draft.ctl_path,
            container,
        },
    )
}

// ---------------------------------------------------------------------------
// laws

/// Arguments that are read without a mistake are read the same in front of
/// others: what both together say is what the first say, then what the others
/// say, and only the others can be wrong.
pub proof fn arguments_are_read_in_turn(first: Seq<Seq<char>>, second: Seq<Seq<char>>)
    requires
        tokens(first) is Ok,
    ensures
        tokens(first + second) == (match tokens(second) {
            Ok(said) => Ok::<_, Seq<char>>(tokens(first)->Ok_0 + said),
            Err(e) => Err::<Seq<Token>, _>(e),
        }),
    decreases first.len(),
{
    if first.len() == 0 {
        assert(first + second =~= second);
        if let Ok(said) = tokens(second) {
            assert(Seq::<Token>::empty() + said =~= said);
        }
    } else {
        let both = first + second;
        let used = first_token(first)->Ok_0.1;
        assert(first_token(both) == first_token(first));
        arguments_are_read_in_turn(first.skip(used), second);
        assert(both.skip(used) =~= first.skip(used) + second);
        if let Ok(said) = tokens(second) {
            let token = first_token(first)->Ok_0.0;
            let rest = tokens(first.skip(used))->Ok_0;
            assert(seq![token] + (rest + said) =~= (seq![token] + rest) + said);
        }
    }
}

/// The first mistake is what is reported, whatever comes after it, unless it is
/// that an option at the very end lacks its value.
pub proof fn the_first_mistake_is_reported(
    first: Seq<Seq<char>>,
    wrong: Seq<Seq<char>>,
    after: Seq<Seq<char>>,
)
    requires
        tokens(first) is Ok,
        wrong.len() > 0,
        first_token(wrong) is Err,
        takes_value(wrong[0]) ==> wrong.len() >= 2,
    ensures
        args_asked(first + wrong + after) == Err::<ArgsView, _>(first_token(wrong)->Err_0),
{
    let rest = wrong + after;
    assert(rest[0] == wrong[0]);
    if takes_value(wrong[0]) {
        assert(rest[1] == wrong[1]);
    }
    assert(first_token(rest) == first_token(wrong));
    arguments_are_read_in_turn(first, rest);
    assert(first + wrong + after =~= first + rest);
}

/// The pane's size is fixed exactly where the command line gives one, and an
/// accepted command line names exactly two words.
pub proof fn accepted_arguments(argv: Seq<Seq<char>>)
    requires
        args_asked(argv) is Ok,
    ensures
        tokens(argv) is Ok,
        words(tokens(argv)->Ok_0) == seq![
            args_asked(argv)->Ok_0.ssh_target,
            args_asked(argv)->Ok_0.pane_target,
        ],
        !args_asked(argv)->Ok_0.size_fixed ==> args_asked(argv)->Ok_0.cols == 240
            && args_asked(argv)->Ok_0.rows == 72,
        !(last_said(tokens(argv)->Ok_0, container()) is Some && last_said(
            tokens(argv)->Ok_0,
            container_folder(),
        ) is Some),
{
    let w = words(tokens(argv)->Ok_0);
    assert(w =~= seq![w[0], w[1]]);
}

/// Whether two tokens give the same option, or are both words.
pub open spec fn same_kind(x: Token, y: Token) -> bool {
    match (x, y) {
        (Token::RemoteBin(_), Token::RemoteBin(_)) => true,
        (Token::Cols(_), Token::Cols(_)) => true,
        (Token::Rows(_), Token::Rows(_)) => true,
        (Token::Session(_), Token::Session(_)) => true,
        (Token::ControlIdle(_), Token::ControlIdle(_)) => true,
        (Token::CtlPath(_), Token::CtlPath(_)) => true,
        (Token::Container(_), Token::Container(_)) => true,
        (Token::ContainerFolder(_), Token::ContainerFolder(_)) => true,
        (Token::DockerBin(_), Token::DockerBin(_)) => true,
        (Token::AlwaysControl, Token::AlwaysControl) => true,
        (Token::Dump, Token::Dump) => true,
        (Token::Word(_), Token::Word(_)) => true,
        _ => false,
    }
}

proof fn said_in_turn<T>(a: Seq<Token>, b: Seq<Token>, pick: spec_fn(Token) -> Option<T>)
    ensures
        last_said(a + b, pick) == (if last_said(b, pick) is Some {
            last_said(b, pick)
        } else {
            last_said(a, pick)
        }),
    decreases b.len(),
{
    if b.len() == 0 {
        assert(a + b =~= a);
    } else {
        assert((a + b).drop_last() =~= a + b.drop_last());
        said_in_turn(a, b.drop_last(), pick);
    }
}

proof fn swap_said<T>(
    a: Seq<Token>,
    x: Token,
    y: Token,
    b: Seq<Token>,
    pick: spec_fn(Token) -> Option<T>,
)
    requires
        pick(x) is None || pick(y) is None,
    ensures
        last_said(a.push(x).push(y) + b, pick) == last_said(a.push(y).push(x) + b, pick),
{
    said_in_turn(a.push(x).push(y), b, pick);
    said_in_turn(a.push(y).push(x), b, pick);
    said_next(a, x, pick);
    said_next(a, y, pick);
    said_next(a.push(x), y, pick);
    said_next(a.push(y), x, pick);
}

proof fn words_in_turn(a: Seq<Token>, b: Seq<Token>)
    ensures
        words(a + b) == words(a) + words(b),
    decreases b.len(),
{
    if b.len() == 0 {
        assert(a + b =~= a);
        assert(words(a) + words(b) =~= words(a));
    } else {
        assert((a + b).drop_last() =~= a + b.drop_last());
        words_in_turn(a, b.drop_last());
        assert(words(a + b) =~= words(a) + words(b));
    }
}

/// Options may stand in any order and anywhere between the words: two
/// neighbours that are not of one kind may change places.
pub proof fn options_may_stand_anywhere(a: Seq<Token>, x: Token, y: Token, b: Seq<Token>)
    requires
        !same_kind(x, y),
    ensures
        words(a.push(x).push(y) + b) == words(a.push(y).push(x) + b),
        args_said(a.push(x).push(y) + b) == args_said(a.push(y).push(x) + b),
{
    let one = a.push(x).push(y) + b;
    let other = a.push(y).push(x) + b;
    swap_said(a, x, y, b, remote_bin());
    swap_said(a, x, y, b, cols());
    swap_said(a, x, y, b, rows());
    swap_said(a, x, y, b, session());
    swap_said(a, x, y, b, control_idle());
    swap_said(a, x, y, b, ctl_path());
    swap_said(a, x, y, b, container());
    swap_said(a, x, y, b, container_folder());
    swap_said(a, x, y, b, docker_bin());
    words_in_turn(a.push(x).push(y), b);
    words_in_turn(a.push(y).push(x), b);
    words_next(a, x);
    words_next(a, y);
    words_next(a.push(x), y);
    words_next(a.push(y), x);
    assert forall|t: Token| one.contains(t) == other.contains(t) by {
        if one.contains(t) {
            contains_swapped(a, x, y, b, t);
        }
        if other.contains(t) {
            contains_swapped(a, y, x, b, t);
        }
    }
}

proof fn contains_swapped(a: Seq<Token>, x: Token, y: Token, b: Seq<Token>, t: Token)
    requires
        (a.push(x).push(y) + b).contains(t),
    ensures
        (a.push(y).push(x) + b).contains(t),
{
    let one = a.push(x).push(y) + b;
    let other = a.push(y).push(x) + b;
    let i = choose|i: int| 0 <= i < one.len() && one[i] == t;
    let n = a.len() as int;
    let j = if i == n {
        n + 1
    } else if i == n + 1 {
        n
    } else {
        i
    };
    assert(other[j] == t);
}

// ---------------------------------------------------------------------------
// what each argument does

/// What arguments say is what they hold, field by field.
pub proof fn arguments_say_what_they_hold(args: Args)
    ensures
        args@.ssh_target == args.ssh_target@,
        args@.pane_target == args.pane_target@,
        args@.cols == args.cols,
        args@.rows == args.rows,
        args@.dump == args.dump,
        args@.control_idle_secs == args.control_idle_secs,
        args@.size_fixed == args.size_fixed,
        args@.always_control == args.always_control,
        args@.remote_bin is Some <==> args.remote_bin is Some,
        args.remote_bin is Some ==> args@.remote_bin->0 == args.remote_bin->0@,
        args@.session is Some <==> args.session is Some,
        args.session is Some ==> args@.session->0 == args.session->0@,
        args@.ctl_path is Some <==> args.ctl_path is Some,
        args.ctl_path is Some ==> args@.ctl_path->0 == args.ctl_path->0@,
        args@.container is Some <==> args.container is Some,
        args.container is Some ==> args@.container->0.docker_bin == args.container->0.docker_bin@
            && args@.container->0.kind == args.container->0.kind@,
        args.container is Some && args.container->0.kind is DockerContainer
            ==> args.container->0.kind@ == HostKindView::DockerContainer(
            args.container->0.kind->DockerContainer_0@,
        ),
        args.container is Some && args.container->0.kind is DockerFolder
            ==> args.container->0.kind@ == HostKindView::DockerFolder(
            args.container->0.kind->DockerFolder_0@,
        ),
{
}

/// No option can be taken for another.
proof fn options_look_different()
    ensures
        "--remote-bin"@.len() == 12 && "--remote-bin"@[2] == 'r',
        "--docker-bin"@.len() == 12 && "--docker-bin"@[2] == 'd',
        "--cols"@.len() == 6 && "--cols"@[2] == 'c',
        "--rows"@.len() == 6 && "--rows"@[2] == 'r',
        "--dump"@.len() == 6 && "--dump"@[2] == 'd',
        "--session"@.len() == 9,
        "--control-idle"@.len() == 14,
        "--ctl-path"@.len() == 10,
        "--container"@.len() == 11,
        "--container-folder"@.len() == 18,
        "--always-control"@.len() == 16,
{
    reveal_strlit("--remote-bin");
    reveal_strlit("--docker-bin");
    reveal_strlit("--cols");
    reveal_strlit("--rows");
    reveal_strlit("--dump");
    reveal_strlit("--session");
    reveal_strlit("--control-idle");
    reveal_strlit("--ctl-path");
    reveal_strlit("--container");
    reveal_strlit("--container-folder");
    reveal_strlit("--always-control");
}

/// One more token, said last, counts for its own kind and no other.
proof fn one_more_is_said(said: Seq<Token>, next: Token)
    ensures
        ({
            let all = said.push(next);
            &&& last_said(all, remote_bin()) == (match next {
                Token::RemoteBin(v) => Some(v),
                _ => last_said(said, remote_bin()),
            })
            &&& last_said(all, cols()) == (match next {
                Token::Cols(v) => Some(v),
                _ => last_said(said, cols()),
            })
            &&& last_said(all, rows()) == (match next {
                Token::Rows(v) => Some(v),
                _ => last_said(said, rows()),
            })
            &&& last_said(all, session()) == (match next {
                Token::Session(v) => Some(v),
                _ => last_said(said, session()),
            })
            &&& last_said(all, control_idle()) == (match next {
                Token::ControlIdle(v) => Some(v),
                _ => last_said(said, control_idle()),
            })
            &&& last_said(all, ctl_path()) == (match next {
                Token::CtlPath(v) => Some(v),
                _ => last_said(said, ctl_path()),
            })
            &&& last_said(all, container()) == (match next {
                Token::Container(v) => Some(v),
                _ => last_said(said, container()),
            })
            &&& last_said(all, container_folder()) == (match next {
                Token::ContainerFolder(v) => Some(v),
                _ => last_said(said, container_folder()),
            })
            &&& last_said(all, docker_bin()) == (match next {
                Token::DockerBin(v) => Some(v),
                _ => last_said(said, docker_bin()),
            })
            &&& all.contains(Token::Dump) == (said.contains(Token::Dump) || next == Token::Dump)
            &&& all.contains(Token::AlwaysControl) == (said.contains(Token::AlwaysControl) || next
                == Token::AlwaysControl)
            &&& words(all) == (match next {
                Token::Word(w) => words(said).push(w),
                _ => words(said),
            })
        }),
{
    let all = said.push(next);
    said_next(said, next, remote_bin());
    said_next(said, next, cols());
    said_next(said, next, rows());
    said_next(said, next, session());
    said_next(said, next, control_idle());
    said_next(said, next, ctl_path());
    said_next(said, next, container());
    said_next(said, next, container_folder());
    said_next(said, next, docker_bin());
    words_next(said, next);
    assert forall|t: Token| all.contains(t) == (said.contains(t) || t == next) by {
        if said.contains(t) {
            let i = choose|i: int| 0 <= i < said.len() && said[i] == t;
            assert(all[i] == t);
        }
        if t == next {
            assert(all[said.len() as int] == t);
        }
    }
}

/// Arguments behind others that say one thing more.
proof fn one_more_is_read(argv: Seq<Seq<char>>, more: Seq<Seq<char>>)
    requires
        tokens(argv) is Ok,
        more.len() > 0,
        first_token(more) is Ok,
        first_token(more)->Ok_0.1 == more.len(),
    ensures
        tokens(argv + more) == Ok::<_, Seq<char>>(
            tokens(argv)->Ok_0.push(first_token(more)->Ok_0.0),
        ),
{
    let token = first_token(more)->Ok_0.0;
    assert(more.skip(more.len() as int) =~= Seq::empty());
    assert(tokens(more.skip(more.len() as int)) == Ok::<_, Seq<char>>(Seq::<Token>::empty()));
    assert(seq![token] + Seq::<Token>::empty() =~= seq![token]);
    assert(tokens(more) == Ok::<_, Seq<char>>(seq![token]));
    arguments_are_read_in_turn(argv, more);
    assert(tokens(argv)->Ok_0 + seq![token] =~= tokens(argv)->Ok_0.push(token));
}

/// Options with a text for their value: behind any accepted arguments each sets
/// its own field to that text, and leaves all others as they are.
pub proof fn a_text_option_sets_its_field(argv: Seq<Seq<char>>, value: Seq<char>)
    requires
        args_asked(argv) is Ok,
    ensures
        args_asked(argv + seq!["--remote-bin"@, value]) == Ok::<_, Seq<char>>(
            ArgsView { remote_bin: Some(value), ..args_asked(argv)->Ok_0 },
        ),
        args_asked(argv + seq!["--session"@, value]) == Ok::<_, Seq<char>>(
            ArgsView { session: Some(value), ..args_asked(argv)->Ok_0 },
        ),
        args_asked(argv + seq!["--ctl-path"@, value]) == Ok::<_, Seq<char>>(
            ArgsView { ctl_path: Some(value), ..args_asked(argv)->Ok_0 },
        ),
{
    options_look_different();
    let said = tokens(argv)->Ok_0;
    one_more_is_read(argv, seq!["--remote-bin"@, value]);
    one_more_is_said(said, Token::RemoteBin(value));
    one_more_is_read(argv, seq!["--session"@, value]);
    one_more_is_said(said, Token::Session(value));
    one_more_is_read(argv, seq!["--ctl-path"@, value]);
    one_more_is_said(said, Token::CtlPath(value));
}

/// Columns and rows: each sets its own axis and has the size taken as it is; the
/// other axis stays. What is no number, or too large a one, is refused.
pub proof fn a_size_option_sets_its_axis(argv: Seq<Seq<char>>, value: Seq<char>)
    requires
        args_asked(argv) is Ok,
    ensures
        ({
            let n = number_of(value, usize::MAX as nat);
            let old = args_asked(argv)->Ok_0;
            let wide = args_asked(argv + seq!["--cols"@, value]);
            let tall = args_asked(argv + seq!["--rows"@, value]);
            &&& n is Some ==> wide == Ok::<_, Seq<char>>(
                ArgsView { cols: n->0, size_fixed: true, ..old },
            )
            &&& n is Some ==> tall == Ok::<_, Seq<char>>(
                ArgsView { rows: n->0, size_fixed: true, ..old },
            )
            &&& n is None ==> wide == Err::<ArgsView, _>("--cols must be a number"@)
            &&& n is None ==> tall == Err::<ArgsView, _>("--rows must be a number"@)
        }),
{
    options_look_different();
    let said = tokens(argv)->Ok_0;
    let n = number_of(value, usize::MAX as nat);
    let wide = seq!["--cols"@, value];
    let tall = seq!["--rows"@, value];
    if n is Some {
        one_more_is_read(argv, wide);
        one_more_is_said(said, Token::Cols(n->0));
        one_more_is_read(argv, tall);
        one_more_is_said(said, Token::Rows(n->0));
    } else {
        arguments_are_read_in_turn(argv, wide);
        arguments_are_read_in_turn(argv, tall);
        reveal_strlit(" must be a number");
        reveal_strlit("--cols");
        reveal_strlit("--rows");
        reveal_strlit("--cols must be a number");
        reveal_strlit("--rows must be a number");
        assert("--cols"@ + " must be a number"@ =~= "--cols must be a number"@);
        assert("--rows"@ + " must be a number"@ =~= "--rows must be a number"@);
    }
}

/// The idle limit is set by its option alone, in seconds; what is no number is
/// refused.
pub proof fn the_idle_option_sets_the_limit(argv: Seq<Seq<char>>, value: Seq<char>)
    requires
        args_asked(argv) is Ok,
    ensures
        ({
            let n = number_of(value, u64::MAX as nat);
            let new = args_asked(argv + seq!["--control-idle"@, value]);
            &&& n is Some ==> new == Ok::<_, Seq<char>>(
                ArgsView { control_idle_secs: n->0, ..args_asked(argv)->Ok_0 },
            )
            &&& n is None ==> new == Err::<ArgsView, _>("--control-idle must be a number"@)
        }),
{
    options_look_different();
    let n = number_of(value, u64::MAX as nat);
    let more = seq!["--control-idle"@, value];
    if n is Some {
        one_more_is_read(argv, more);
        one_more_is_said(tokens(argv)->Ok_0, Token::ControlIdle(n->0));
    } else {
        arguments_are_read_in_turn(argv, more);
        reveal_strlit(" must be a number");
        reveal_strlit("--control-idle");
        reveal_strlit("--control-idle must be a number");
        assert("--control-idle"@ + " must be a number"@ =~= "--control-idle must be a number"@);
    }
}

/// A flag sets its own field and nothing else.
pub proof fn a_flag_sets_its_field(argv: Seq<Seq<char>>)
    requires
        args_asked(argv) is Ok,
    ensures
        args_asked(argv + seq!["--always-control"@]) == Ok::<_, Seq<char>>(
            ArgsView { always_control: true, ..args_asked(argv)->Ok_0 },
        ),
        args_asked(argv + seq!["--dump"@]) == Ok::<_, Seq<char>>(
            ArgsView { dump: true, ..args_asked(argv)->Ok_0 },
        ),
{
    options_look_different();
    let said = tokens(argv)->Ok_0;
    one_more_is_read(argv, seq!["--always-control"@]);
    one_more_is_said(said, Token::AlwaysControl);
    one_more_is_read(argv, seq!["--dump"@]);
    one_more_is_said(said, Token::Dump);
}

/// A container is named by its name or by its folder; naming it again replaces the
/// name, and naming it both ways is refused. Nothing else changes, and a docker
/// that was set stays.
pub proof fn a_container_option_names_the_container(argv: Seq<Seq<char>>, value: Seq<char>)
    requires
        args_asked(argv) is Ok,
    ensures
        ({
            let old = args_asked(argv)->Ok_0;
            let named = args_asked(argv + seq!["--container"@, value]);
            let folder = args_asked(argv + seq!["--container-folder"@, value]);
            let exclusive = "--container and --container-folder are exclusive"@;
            let has_name = old.container is Some && old.container->0.kind is DockerContainer;
            let has_folder = old.container is Some && old.container->0.kind is DockerFolder;
            &&& has_folder ==> named == Err::<ArgsView, _>(exclusive)
            &&& has_name ==> folder == Err::<ArgsView, _>(exclusive)
            &&& !has_folder ==> {
                let new = named->Ok_0.container->0;
                &&& named is Ok
                &&& named->Ok_0.container is Some
                &&& new.kind == HostKindView::DockerContainer(value)
                &&& has_name ==> new.docker_bin == old.container->0.docker_bin
                &&& named->Ok_0 == (ArgsView { container: Some(new), ..old })
            }
            &&& !has_name ==> {
                let new = folder->Ok_0.container->0;
                &&& folder is Ok
                &&& folder->Ok_0.container is Some
                &&& new.kind == HostKindView::DockerFolder(value)
                &&& has_folder ==> new.docker_bin == old.container->0.docker_bin
                &&& folder->Ok_0 == (ArgsView { container: Some(new), ..old })
            }
            &&& old.container is None ==> named->Ok_0.container->0.docker_bin
                == folder->Ok_0.container->0.docker_bin
        }),
{
    options_look_different();
    let said = tokens(argv)->Ok_0;
    one_more_is_read(argv, seq!["--container"@, value]);
    one_more_is_said(said, Token::Container(value));
    one_more_is_read(argv, seq!["--container-folder"@, value]);
    one_more_is_said(said, Token::ContainerFolder(value));
}

/// The docker that was named is the one that runs the container, whichever of the
/// two was named first; without a container nothing comes of it.
pub proof fn the_docker_option_names_the_docker(
    argv: Seq<Seq<char>>,
    value: Seq<char>,
    name: Seq<char>,
)
    requires
        args_asked(argv) is Ok,
    ensures
        ({
            let old = args_asked(argv)->Ok_0;
            let new = args_asked(argv + seq!["--docker-bin"@, value]);
            let both = args_asked(
                argv + seq!["--docker-bin"@, value] + seq!["--container"@, name],
            );
            &&& old.container is None ==> new == Ok::<_, Seq<char>>(old)
            &&& old.container is Some ==> new == Ok::<_, Seq<char>>(
                ArgsView {
                    container: Some(
                        ContainerArgView { kind: old.container->0.kind, docker_bin: value },
                    ),
                    ..old
                },
            )
            &&& old.container is None ==> both == Ok::<_, Seq<char>>(
                ArgsView {
                    container: Some(
                        ContainerArgView {
                            kind: HostKindView::DockerContainer(name),
                            docker_bin: value,
                        },
                    ),
                    ..old
                },
            )
        }),
{
    options_look_different();
    let said = tokens(argv)->Ok_0;
    let first = argv + seq!["--docker-bin"@, value];
    one_more_is_read(argv, seq!["--docker-bin"@, value]);
    one_more_is_said(said, Token::DockerBin(value));
    one_more_is_read(first, seq!["--container"@, name]);
    one_more_is_said(said.push(Token::DockerBin(value)), Token::Container(name));
}

/// Two words alone are the ssh target and the pane, in this order, and everything
/// else is as it is by default. A container beside them is run by `docker`.
pub proof fn two_words_are_enough(target: Seq<char>, pane: Seq<char>, name: Seq<char>)
    requires
        target.len() == 0 || target[0] != '-',
        pane.len() == 0 || pane[0] != '-',
    ensures
        ({
            let plain = args_asked(seq![target, pane]);
            let inside = args_asked(seq![target, pane] + seq!["--container"@, name]);
            let default = ArgsView {
                ssh_target: target,
                pane_target: pane,
                remote_bin: None,
                cols: 240,
                rows: 72,
                dump: false,
                session: None,
                control_idle_secs: 3600,
                size_fixed: false,
                always_control: false,
                ctl_path: None,
                container: None,
            };
            &&& plain == Ok::<_, Seq<char>>(default)
            &&& inside == Ok::<_, Seq<char>>(
                ArgsView {
                    container: Some(
                        ContainerArgView {
                            kind: HostKindView::DockerContainer(name),
                            docker_bin: "docker"@,
                        },
                    ),
                    ..default
                },
            )
        }),
{
    options_look_different();
    words_are_no_options(target);
    words_are_no_options(pane);
    let none = Seq::<Token>::empty();
    let nothing = Seq::<Seq<char>>::empty();
    assert(tokens(nothing) == Ok::<_, Seq<char>>(none));
    one_more_is_read(nothing, seq![target]);
    one_more_is_said(none, Token::Word(target));
    assert(nothing + seq![target] =~= seq![target]);
    one_more_is_read(seq![target], seq![pane]);
    one_more_is_said(none.push(Token::Word(target)), Token::Word(pane));
    assert(seq![target] + seq![pane] =~= seq![target, pane]);
    let both = none.push(Token::Word(target)).push(Token::Word(pane));
    assert(words(both) =~= seq![target, pane]);
    one_more_is_read(seq![target, pane], seq!["--container"@, name]);
    one_more_is_said(both, Token::Container(name));
}

/// A word that starts with no dash is a word.
proof fn words_are_no_options(word: Seq<char>)
    requires
        word.len() == 0 || word[0] != '-',
    ensures
        first_token(seq![word]) == Ok::<_, Seq<char>>((Token::Word(word), 1int)),
{
    reveal_strlit("--remote-bin");
    reveal_strlit("--docker-bin");
    reveal_strlit("--cols");
    reveal_strlit("--rows");
    reveal_strlit("--dump");
    reveal_strlit("--session");
    reveal_strlit("--control-idle");
    reveal_strlit("--ctl-path");
    reveal_strlit("--container");
    reveal_strlit("--container-folder");
    reveal_strlit("--always-control");
}

/// A third word is refused, wherever the options stand.
pub proof fn a_third_word_is_refused(argv: Seq<Seq<char>>, word: Seq<char>)
    requires
        args_asked(argv) is Ok,
        word.len() == 0 || word[0] != '-',
    ensures
        args_asked(argv + seq![word]) == Err::<ArgsView, _>(
            "usage: herdr-mirror pane <ssh-target> <pane-target> [--remote-bin PATH] [--cols N --rows N] [--dump]"@,
        ),
{
    words_are_no_options(word);
    one_more_is_read(argv, seq![word]);
    one_more_is_said(tokens(argv)->Ok_0, Token::Word(word));
}

/// Less than two words are refused.
pub proof fn too_few_words_are_refused(argv: Seq<Seq<char>>)
    requires
        tokens(argv) is Ok,
        words(tokens(argv)->Ok_0).len() < 2,
    ensures
        args_asked(argv) == Err::<ArgsView, _>(
            "usage: herdr-mirror pane <ssh-target> <pane-target> [--remote-bin PATH] [--cols N --rows N] [--dump]"@,
        ),
{
}

/// Whether this is one of the options that take a value.
pub open spec fn wants_value(option: Seq<char>) -> bool {
    ||| option == "--remote-bin"@ || option == "--session"@ || option == "--ctl-path"@
    ||| option == "--cols"@ || option == "--rows"@ || option == "--control-idle"@
    ||| option == "--container"@ || option == "--container-folder"@ || option == "--docker-bin"@
}

/// An option that lacks its value is refused by name. Any other word that starts
/// with a dash and is no flag either is an unknown option, and refused by name.
pub proof fn bad_options_are_refused(argv: Seq<Seq<char>>, option: Seq<char>)
    requires
        tokens(argv) is Ok,
    ensures
        wants_value(option) ==> args_asked(argv + seq![option]) == Err::<ArgsView, _>(
            option + " needs a value"@,
        ),
        !wants_value(option) && option != "--always-control"@ && option != "--dump"@ && option.len()
            > 0 && option[0] == '-' ==> args_asked(argv + seq![option]) == Err::<ArgsView, _>(
            "unknown option: "@ + option,
        ),
{
    let more = seq![option];
    arguments_are_read_in_turn(argv, more);
    assert(more.skip(1) =~= Seq::empty());
}

} // verus!
