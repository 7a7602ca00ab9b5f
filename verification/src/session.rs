//! A session with the remote terminal: the command that opens it, and why it
//! ended.

use vstd::prelude::*;
use vstd::utf8::encode_utf8;

use crate::args::{optional_text, Args, ArgsView};
use crate::mode::Mode;
use crate::text::{
    chars_of, decimal, decimal_text, join3, number_of, same_text, string_of, texts, texts_push,
    trim, trimmed, written_numbers_are_read_back,
};

verus! {

// ---------------------------------------------------------------------------
// quoting for the remote shell

/// `s` for use between single quotes: each single quote closes them, stands
/// there escaped, and opens them again.
pub open spec fn escaped(s: Seq<char>) -> Seq<char>
    decreases s.len(),
{
    if s.len() == 0 {
        Seq::empty()
    } else if s.last() == '\'' {
        escaped(s.drop_last()) + seq!['\'', '\\', '\'', '\'']
    } else {
        escaped(s.drop_last()).push(s.last())
    }
}

/// `s` between single quotes.
pub open spec fn sh_quoted(s: Seq<char>) -> Seq<char> {
    seq!['\''] + escaped(s) + seq!['\'']
}

/// POSIX single quotes around `s`: a quote in it cannot break the remote shell's
/// parse.
pub fn sh_quote(s: &str) -> (q: String)
    ensures
        q@ == sh_quoted(s@),
{
    let chars = chars_of(s);
    let mut q = String::new();
    q.push('\'');
    let mut i: usize = 0;
    assert(q@ =~= seq!['\''] + escaped(s@.take(0)));
    while i < chars.len()
        invariant
            i <= chars@.len(),
            chars@ == s@,
            q@ == seq!['\''] + escaped(s@.take(i as int)),
        decreases chars@.len() - i,
    {
        let c = chars[i];
        assert(s@.take(i + 1).drop_last() =~= s@.take(i as int));
        if c == '\'' {
            q.push('\'');
            q.push('\\');
            q.push('\'');
            q.push('\'');
        } else {
            q.push(c);
        }
        assert(q@ =~= seq!['\''] + escaped(s@.take(i + 1)));
        i += 1;
    }
    assert(s@.take(i as int) =~= s@);
    q.push('\'');
    assert(q@ =~= sh_quoted(s@));
    q
}

/// What a POSIX shell makes of `text`, inside single quotes or outside of them,
/// where it is part of a single word that nothing is expanded in. Inside, every
/// character up to the next quote stands for itself. Outside, a quote opens
/// quotes and a backslash keeps the next character; anything else could mean
/// something to the shell.
pub open spec fn shell_word(text: Seq<char>, inside: bool) -> Option<Seq<char>>
    decreases text.len(),
{
    if text.len() == 0 {
        if inside {
            None
        } else {
            Some(Seq::empty())
        }
    } else if text[0] == '\'' {
        shell_word(text.skip(1), !inside)
    } else if inside {
        match shell_word(text.skip(1), true) {
            Some(rest) => Some(seq![text[0]] + rest),
            None => None,
        }
    } else if text[0] == '\\' && text.len() > 1 && text[1] != '\n' {
        match shell_word(text.skip(2), false) {
            Some(rest) => Some(seq![text[1]] + rest),
            None => None,
        }
    } else {
        None
    }
}

/// Inside quotes, escaped text in front of `tail` is read as the text.
proof fn escaped_is_read_back(s: Seq<char>, tail: Seq<char>)
    requires
        shell_word(tail, true) is Some,
    ensures
        shell_word(escaped(s) + tail, true) == Some(s + shell_word(tail, true)->0),
    decreases s.len(),
{
    if s.len() == 0 {
        assert(escaped(s) + tail =~= tail);
        assert(s + shell_word(tail, true)->0 =~= shell_word(tail, true)->0);
    } else {
        let c = s.last();
        let rest = shell_word(tail, true)->0;
        if c == '\'' {
            let longer = seq!['\'', '\\', '\'', '\''] + tail;
            assert(longer.skip(1).skip(2).skip(1) =~= tail);
            assert(longer.skip(1)[0] == '\\' && longer.skip(1)[1] == '\'');
            assert(longer.skip(1).skip(2)[0] == '\'');
            assert(shell_word(longer.skip(1).skip(2), false) == Some(rest));
            assert(shell_word(longer.skip(1), false) == Some(seq!['\''] + rest));
            assert(shell_word(longer, true) == Some(seq!['\''] + rest));
            escaped_is_read_back(s.drop_last(), longer);
            assert(escaped(s) + tail =~= escaped(s.drop_last()) + longer);
            assert(s.drop_last() + (seq!['\''] + rest) =~= s + rest);
        } else {
            let longer = seq![c] + tail;
            assert(longer.skip(1) =~= tail);
            assert(shell_word(longer, true) == Some(seq![c] + rest));
            escaped_is_read_back(s.drop_last(), longer);
            assert(escaped(s) + tail =~= escaped(s.drop_last()) + longer);
            assert(s.drop_last() + (seq![c] + rest) =~= s + rest);
        }
    }
}

/// Whatever text is quoted, the shell reads it back as one word, character for
/// character.
pub proof fn quoted_text_is_one_word(s: Seq<char>)
    ensures
        shell_word(sh_quoted(s), false) == Some(s),
{
    let close = seq!['\''];
    assert(close.skip(1) =~= Seq::empty());
    assert(shell_word(close.skip(1), false) == Some(Seq::<char>::empty()));
    assert(shell_word(close, true) == Some(Seq::<char>::empty()));
    escaped_is_read_back(s, close);
    assert(sh_quoted(s).skip(1) =~= escaped(s) + close);
    assert(s + Seq::<char>::empty() =~= s);
}

// ---------------------------------------------------------------------------
// the command that opens a session

/// The command that the remote shell runs for a session. `bin` is a shell
/// expression for the remote binary and is not quoted.
pub open spec fn session_line(
    bin: Seq<char>,
    mode: Mode,
    pane_target: Seq<char>,
    cols: nat,
    rows: nat,
) -> Seq<char> {
    "exec "@ + bin + " terminal session "@ + mode.name() + " "@ + sh_quoted(pane_target)
        + " --cols "@ + decimal(cols) + " --rows "@ + decimal(rows)
}

/// The command that the remote shell runs for a session.
pub fn session_command(
    bin: &str,
    mode: Mode,
    pane_target: &str,
    cols: usize,
    rows: usize,
) -> (s: String)
    ensures
        s@ == session_line(bin@, mode, pane_target@, cols as nat, rows as nat),
{
    let target = sh_quote(pane_target);
    let width = decimal_text(cols as u64);
    let height = decimal_text(rows as u64);
    let mut s = join3("exec ", bin, " terminal session ");
    s.append(mode.as_str());
    s.append(" ");
    s.append(target.as_str());
    s.append(" --cols ");
    s.append(width.as_str());
    s.append(" --rows ");
    s.append(height.as_str());
    s
}

/// A program and its arguments.
#[derive(Debug, Clone)]
pub struct CommandLine {
    pub program: String,
    pub args: Vec<String>,
}

/// The local program that carries a session's command, and its arguments: ssh
/// to the target, or docker into the container.
pub open spec fn carried(
    args: ArgsView,
    ssh_opts: Seq<Seq<char>>,
    container_id: Seq<char>,
    command: Seq<char>,
) -> (Seq<char>, Seq<Seq<char>>) {
    match args.container {
        None => ("ssh"@, ssh_opts + seq![args.ssh_target, command]),
        Some(container) => (
            container.docker_bin,
            seq!["exec"@, "-i"@, container_id, "sh"@, "-c"@, command],
        ),
    }
}

/// The local program that carries a session's command. The two ways differ in
/// nothing else: what comes and goes on the pipes is the same.
pub fn session_program(
    args: &Args,
    ssh_opts: &Vec<String>,
    container_id: &str,
    command: &str,
) -> (line: CommandLine)
    ensures
        (line.program@, texts(line.args@)) == carried(
            args@,
            texts(ssh_opts@),
            container_id@,
            command@,
        ),
{
    broadcast use texts_push;

    let mut v: Vec<String> = Vec::new();
    match &args.container {
        None => {
            let mut i: usize = 0;
            assert(texts(v@) =~= texts(ssh_opts@).take(0));
            while i < ssh_opts.len()
                invariant
                    i <= ssh_opts@.len(),
                    texts(v@) == texts(ssh_opts@).take(i as int),
                decreases ssh_opts@.len() - i,
            {
                v.push(ssh_opts[i].clone());
                assert(texts(ssh_opts@).take(i + 1) =~= texts(ssh_opts@).take(i as int).push(
                    ssh_opts@[i as int]@,
                ));
                i += 1;
            }
            v.push(args.ssh_target.clone());
            v.push(command.to_owned());
            assert(texts(v@) =~= texts(ssh_opts@) + seq![args.ssh_target@, command@]);
            CommandLine { program: "ssh".to_owned(), args: v }
        },
        Some(container) => {
            v.push("exec".to_owned());
            v.push("-i".to_owned());
            v.push(container_id.to_owned());
            v.push("sh".to_owned());
            v.push("-c".to_owned());
            v.push(command.to_owned());
            assert(texts(v@) =~= seq!["exec"@, "-i"@, container_id@, "sh"@, "-c"@, command@]);
            CommandLine { program: container.docker_bin.clone(), args: v }
        },
    }
}

// ---------------------------------------------------------------------------
// why a session ended

/// How many bytes of error output are kept whole, and how many characters are
/// kept of more.
pub const TAIL_LIMIT: usize = 400;

/// The last `n` characters of `s`, or all of them.
pub open spec fn last_chars(s: Seq<char>, n: int) -> Seq<char> {
    if s.len() <= n {
        s
    } else {
        s.skip(s.len() - n)
    }
}

/// What is kept of the error output when another line comes.
pub open spec fn tail_after(kept: Seq<char>, line: Seq<char>) -> Seq<char> {
    let all = kept + line + "\n"@;
    if encode_utf8(all).len() > TAIL_LIMIT {
        last_chars(all, TAIL_LIMIT as int)
    } else {
        all
    }
}

/// What is kept of a session in order to say why it ended.
pub struct SessionLog {
    close_reason: String,
    tail: String,
}

/// What a `SessionLog` holds.
pub struct SessionLogView {
    /// the reason that the server gave for closing
    pub close_reason: Seq<char>,
    /// the end of the error output
    pub tail: Seq<char>,
}

impl View for SessionLog {
    type V = SessionLogView;

    closed spec fn view(&self) -> SessionLogView {
        SessionLogView { close_reason: self.close_reason@, tail: self.tail@ }
    }
}

/// Why a session ended: what the server said, or else what the error output
/// ends with.
pub open spec fn why_ended(log: SessionLogView) -> Seq<char> {
    if log.close_reason.len() == 0 {
        trimmed(log.tail)
    } else {
        log.close_reason
    }
}

/// What is kept of a session after a frame of this kind, with the reason that it
/// gives.
pub open spec fn log_after(
    log: SessionLogView,
    kind: Seq<char>,
    reason: Option<Seq<char>>,
) -> SessionLogView {
    match reason {
        Some(r) if kind == "terminal.closed"@ => SessionLogView { close_reason: r, ..log },
        _ => log,
    }
}

impl SessionLog {
    /// Nothing is known yet.
    pub fn new() -> (log: SessionLog)
        ensures
            log@ == (SessionLogView { close_reason: Seq::empty(), tail: Seq::empty() }),
    {
        SessionLog { close_reason: String::new(), tail: String::new() }
    }

    /// A line of error output.
    pub fn error_line(&mut self, line: &str)
        ensures
            final(self)@ == (SessionLogView { tail: tail_after(old(self)@.tail, line@), ..old(self)@ }),
    {
        self.tail.append(line);
        self.tail.append("\n");
        if self.tail.as_str().as_bytes().len() > TAIL_LIMIT {
            let chars = chars_of(self.tail.as_str());
            let from = if chars.len() > TAIL_LIMIT {
                chars.len() - TAIL_LIMIT
            } else {
                0
            };
            let ghost all = self.tail@;
            assert(all.subrange(from as int, all.len() as int) =~= last_chars(
                all,
                TAIL_LIMIT as int,
            ));
            self.tail = string_of(chars.as_slice(), from, chars.len());
        }
    }

    /// A frame of this kind, with the reason that it gives.
    pub fn frame(&mut self, kind: &str, reason: &Option<String>)
        ensures
            final(self)@ == log_after(old(self)@, kind@, optional_text(*reason)),
    {
        if same_text(kind, "terminal.closed") {
            if let Some(r) = reason {
                self.close_reason = r.clone();
            }
        }
    }

    /// Why the session ended.
    pub fn exit_reason(&self) -> (s: String)
        ensures
            s@ == why_ended(self@),
    {
        if self.close_reason.as_str().is_empty() {
            trim(self.tail.as_str())
        } else {
            self.close_reason.clone()
        }
    }
}

/// Characters take at least one byte each.
proof fn bytes_outnumber_chars(s: Seq<char>)
    ensures
        s.len() <= encode_utf8(s).len(),
    decreases s.len(),
{
    if s.len() > 0 {
        bytes_outnumber_chars(s.drop_first());
    }
}

/// What is kept of the error output never grows beyond the limit, and stays the
/// end of all that was ever written to it.
pub proof fn the_tail_is_bounded(written: Seq<char>, kept: Seq<char>, line: Seq<char>)
    requires
        kept.is_suffix_of(written),
    ensures
        tail_after(kept, line).len() <= TAIL_LIMIT,
        tail_after(kept, line).is_suffix_of(written + line + "\n"@),
{
    let all = kept + line + "\n"@;
    let ever = written + line + "\n"@;
    bytes_outnumber_chars(all);
    let tail = tail_after(kept, line);
    assert(ever.subrange(ever.len() - all.len(), ever.len() as int) =~= all);
    assert(ever.subrange(ever.len() - tail.len(), ever.len() as int) =~= tail);
}

// ---------------------------------------------------------------------------
// what the remote shell reads

/// Whether a character stands for itself outside quotes.
pub open spec fn is_safe(c: char) -> bool {
    'a' <= c <= 'z' || 'A' <= c <= 'Z' || '0' <= c <= '9' || c == '-'
}

/// The words that a POSIX shell reads `text` as, behind a word that has begun or
/// not, inside single quotes or outside of them; nothing where the text means
/// more to a shell than words.
pub open spec fn shell_words(text: Seq<char>, begun: Option<Seq<char>>, inside: bool) -> Option<
    Seq<Seq<char>>,
>
    decreases text.len(),
{
    let so_far = match begun {
        Some(word) => word,
        None => Seq::empty(),
    };
    if text.len() == 0 {
        if inside {
            None
        } else if begun is Some {
            Some(seq![so_far])
        } else {
            Some(Seq::empty())
        }
    } else if text[0] == '\'' {
        shell_words(text.skip(1), Some(so_far), !inside)
    } else if inside {
        shell_words(text.skip(1), Some(so_far.push(text[0])), true)
    } else if text[0] == ' ' {
        match shell_words(text.skip(1), None, false) {
            Some(rest) => Some(
                if begun is Some {
                    seq![so_far] + rest
                } else {
                    rest
                },
            ),
            None => None,
        }
    } else if text[0] == '\\' && text.len() > 1 && text[1] != '\n' {
        shell_words(text.skip(2), Some(so_far.push(text[1])), false)
    } else if is_safe(text[0]) {
        shell_words(text.skip(1), Some(so_far.push(text[0])), false)
    } else {
        None
    }
}

/// Safe characters are added to the word.
proof fn safe_text_is_read(w: Seq<char>, rest: Seq<char>, begun: Option<Seq<char>>)
    requires
        w.len() > 0,
        forall|i: int| 0 <= i < w.len() ==> is_safe(#[trigger] w[i]),
    ensures
        shell_words(w + rest, begun, false) == shell_words(
            rest,
            Some(
                (match begun {
                    Some(word) => word,
                    None => Seq::empty(),
                }) + w,
            ),
            false,
        ),
    decreases w.len(),
{
    let so_far = match begun {
        Some(word) => word,
        None => Seq::empty(),
    };
    assert((w + rest).skip(1) =~= w.skip(1) + rest);
    assert((w + rest)[0] == w[0]);
    assert(is_safe(w[0]));
    if w.len() == 1 {
        assert(w.skip(1) + rest =~= rest);
        assert(so_far + w =~= so_far.push(w[0]));
    } else {
        safe_text_is_read(w.skip(1), rest, Some(so_far.push(w[0])));
        assert(so_far.push(w[0]) + w.skip(1) =~= so_far + w);
    }
}

/// Escaped text inside quotes, up to the closing one, is added to the word.
proof fn escaped_text_is_read(s: Seq<char>, tail: Seq<char>, word: Seq<char>)
    ensures
        shell_words(escaped(s) + tail, Some(word), true) == shell_words(tail, Some(word + s), true),
    decreases s.len(),
{
    if s.len() == 0 {
        assert(escaped(s) + tail =~= tail);
        assert(word + s =~= word);
    } else {
        let c = s.last();
        let first = s.drop_last();
        if c == '\'' {
            let four = seq!['\'', '\\', '\'', '\''];
            let longer = four + tail;
            escaped_text_is_read(first, longer, word);
            assert(escaped(s) + tail =~= escaped(first) + longer);
            let w = word + first;
            assert(longer[0] == '\'');
            let two = longer.skip(1);
            assert(two[0] == '\\' && two[1] == '\'');
            let three = two.skip(2);
            assert(three[0] == '\'');
            assert(three.skip(1) =~= tail);
            assert(shell_words(longer, Some(w), true) == shell_words(two, Some(w), false));
            assert(shell_words(two, Some(w), false) == shell_words(
                three,
                Some(w.push('\'')),
                false,
            ));
            assert(shell_words(three, Some(w.push('\'')), false) == shell_words(
                three.skip(1),
                Some(w.push('\'')),
                true,
            ));
            assert(w.push('\'') =~= word + s);
        } else {
            let longer = seq![c] + tail;
            escaped_text_is_read(first, longer, word);
            assert(escaped(s) + tail =~= escaped(first) + longer);
            assert(longer.skip(1) =~= tail);
            assert((word + first).push(c) =~= word + s);
        }
    }
}

/// Quoted text is read as one word.
proof fn quoted_text_is_read(s: Seq<char>, rest: Seq<char>)
    ensures
        shell_words(sh_quoted(s) + rest, None, false) == shell_words(rest, Some(s), false),
{
    let all = sh_quoted(s) + rest;
    let close = seq!['\''] + rest;
    assert(all.skip(1) =~= escaped(s) + close);
    escaped_text_is_read(s, close, Seq::empty());
    assert(Seq::<char>::empty() + s =~= s);
    assert(close.skip(1) =~= rest);
}

/// A space ends a word.
proof fn a_space_ends_a_word(word: Seq<char>, rest: Seq<char>, more: Seq<Seq<char>>)
    requires
        shell_words(rest, None, false) == Some(more),
    ensures
        shell_words(seq![' '] + rest, Some(word), false) == Some(seq![word] + more),
        shell_words(seq![' '] + rest, None, false) == Some(more),
{
    assert((seq![' '] + rest).skip(1) =~= rest);
}

/// A safe word in front of a space and more words is one word more.
proof fn a_safe_word_is_read(w: Seq<char>, rest: Seq<char>, more: Seq<Seq<char>>)
    requires
        w.len() > 0,
        forall|i: int| 0 <= i < w.len() ==> is_safe(#[trigger] w[i]),
        shell_words(rest, None, false) == Some(more),
    ensures
        shell_words(w + (seq![' '] + rest), None, false) == Some(seq![w] + more),
{
    safe_text_is_read(w, seq![' '] + rest, None);
    assert(Seq::<char>::empty() + w =~= w);
    a_space_ends_a_word(w, rest, more);
}

proof fn decimal_is_safe(n: nat)
    ensures
        decimal(n).len() > 0,
        forall|i: int| 0 <= i < decimal(n).len() ==> is_safe(#[trigger] decimal(n)[i]),
    decreases n,
{
    if n >= 10 {
        decimal_is_safe(n / 10);
    }
}

/// The remote shell replaces itself by the binary, as it was given, and reads
/// behind it exactly these words, in either mode: the command, the mode's name,
/// the pane whatever its name holds, and the size, columns before rows, each a
/// number that reads back as what was asked for.
#[verifier::rlimit(40)]
pub proof fn the_command_says_what_was_asked(
    bin: Seq<char>,
    mode: Mode,
    pane_target: Seq<char>,
    cols: nat,
    rows: nat,
)
    ensures
        ({
            let line = session_line(bin, mode, pane_target, cols, rows);
            let start = "exec "@ + bin;
            let read = shell_words(line.skip(start.len() as int), None, false);
            let words = read->0;
            &&& start.len() <= line.len()
            &&& line.take(start.len() as int) == start
            &&& read is Some
            &&& words.len() == 8
            &&& words[0] == "terminal"@ && words[1] == "session"@
            &&& mode == Mode::Observe ==> words[2] == "observe"@
            &&& mode == Mode::Control ==> words[2] == "control"@
            &&& words[3] == pane_target
            &&& words[4] == "--cols"@ && number_of(words[5], cols) == Some(cols)
            &&& words[6] == "--rows"@ && number_of(words[7], rows) == Some(rows)
        }),
{
    let line = session_line(bin, mode, pane_target, cols, rows);
    let start = "exec "@ + bin;
    let name = if mode == Mode::Observe {
        "observe"@
    } else {
        "control"@
    };
    let width = decimal(cols);
    let height = decimal(rows);
    let tail = line.skip(start.len() as int);
    reveal_strlit(" terminal session ");
    reveal_strlit(" ");
    reveal_strlit(" --cols ");
    reveal_strlit(" --rows ");
    reveal_strlit("terminal");
    reveal_strlit("session");
    reveal_strlit("observe");
    reveal_strlit("control");
    reveal_strlit("--cols");
    reveal_strlit("--rows");
    assert(line.take(start.len() as int) =~= start);
    written_numbers_are_read_back(cols, cols);
    written_numbers_are_read_back(rows, rows);
    let space = seq![' '];
    // from the end to the front
    decimal_is_safe(rows);
    safe_text_is_read(height, Seq::empty(), None);
    assert(height + Seq::<char>::empty() =~= height);
    assert(Seq::<char>::empty() + height =~= height);
    assert(shell_words(height, None, false) == Some(seq![height]));
    let t1 = "--rows"@ + (space + height);
    a_safe_word_is_read("--rows"@, height, seq![height]);
    decimal_is_safe(cols);
    let w1 = seq!["--rows"@] + seq![height];
    let t2 = width + (space + t1);
    a_safe_word_is_read(width, t1, w1);
    let w2 = seq![width] + w1;
    let t3 = "--cols"@ + (space + t2);
    a_safe_word_is_read("--cols"@, t2, w2);
    let w3 = seq!["--cols"@] + w2;
    let t4 = sh_quoted(pane_target) + (space + t3);
    quoted_text_is_read(pane_target, space + t3);
    a_space_ends_a_word(pane_target, t3, w3);
    let w4 = seq![pane_target] + w3;
    let t5 = name + (space + t4);
    a_safe_word_is_read(name, t4, w4);
    let w5 = seq![name] + w4;
    let t6 = "session"@ + (space + t5);
    a_safe_word_is_read("session"@, t5, w5);
    let w6 = seq!["session"@] + w5;
    let t7 = "terminal"@ + (space + t6);
    a_safe_word_is_read("terminal"@, t6, w6);
    let w7 = seq!["terminal"@] + w6;
    a_space_ends_a_word(Seq::empty(), t7, w7);
    assert(" terminal session "@ =~= space + "terminal"@ + space + "session"@ + space);
    assert(" "@ =~= space);
    assert(" --cols "@ =~= space + "--cols"@ + space);
    assert(" --rows "@ =~= space + "--rows"@ + space);
    assert(tail =~= space + t7);
    assert(shell_words(tail, None, false) == Some(w7));
}

/// The commands of the two modes for the same pane and size differ in the mode's
/// name and in nothing else.
pub proof fn modes_differ_by_name_alone(
    bin: Seq<char>,
    pane_target: Seq<char>,
    cols: nat,
    rows: nat,
)
    ensures
        exists|head: Seq<char>, tail: Seq<char>|
            {
                &&& session_line(bin, Mode::Observe, pane_target, cols, rows)
                    == #[trigger] (head + "observe"@ + tail)
                &&& session_line(bin, Mode::Control, pane_target, cols, rows) == head + "control"@
                    + tail
            },
{
    let head = "exec "@ + bin + " terminal session "@;
    let tail = " "@ + sh_quoted(pane_target) + " --cols "@ + decimal(cols) + " --rows "@ + decimal(
        rows,
    );
    assert(session_line(bin, Mode::Observe, pane_target, cols, rows) =~= head + "observe"@ + tail);
    assert(session_line(bin, Mode::Control, pane_target, cols, rows) =~= head + "control"@ + tail);
}

/// Over ssh the command is the last word, behind the target, behind all options
/// in their order. Into a container it is the last word too, run by a shell that
/// is no login shell, with its input connected, by the docker that was asked for,
/// in the container that was found.
pub proof fn the_command_is_carried(
    args: ArgsView,
    ssh_opts: Seq<Seq<char>>,
    container_id: Seq<char>,
    command: Seq<char>,
)
    ensures
        ({
            let (program, words) = carried(args, ssh_opts, container_id, command);
            let n = words.len() as int;
            &&& n >= 2
            &&& words[n - 1] == command
            &&& args.container is None ==> {
                &&& program == "ssh"@
                &&& words[n - 2] == args.ssh_target
                &&& words.take(n - 2) == ssh_opts
            }
            &&& args.container is Some ==> {
                &&& program == args.container->0.docker_bin
                &&& n == 6
                &&& words[0] == "exec"@ && words[1] == "-i"@ && words[2] == container_id
                &&& words[3] == "sh"@ && words[4] == "-c"@
            }
        }),
{
    let (program, words) = carried(args, ssh_opts, container_id, command);
    if args.container is None {
        assert(words.take(words.len() - 2) =~= ssh_opts);
    }
}

/// Of the error output the end is kept, as much of it as the limit of 400
/// characters allows and not less.
pub proof fn the_end_of_the_output_is_kept(kept: Seq<char>, line: Seq<char>)
    ensures
        ({
            let all = kept + line + "\n"@;
            let tail = tail_after(kept, line);
            &&& all.len() <= 400 ==> tail == all
            &&& all.len() > 400 ==> tail == all.skip(all.len() - 400)
        }),
{
    bytes_outnumber_chars(kept + line + "\n"@);
}

/// Why a session ended is what the server said, whatever the error output holds,
/// and the error output without white space around it where the server said
/// nothing.
pub proof fn the_server_has_the_last_word(log: SessionLogView)
    ensures
        log.close_reason.len() > 0 ==> why_ended(log) == log.close_reason,
        log.close_reason.len() == 0 ==> why_ended(log) == trimmed(log.tail),
{
}

/// Only a frame that says that the terminal was closed, and why, gives the
/// server's reason; the last one counts, and the error output stays.
pub proof fn only_a_closing_frame_gives_a_reason(
    log: SessionLogView,
    kind: Seq<char>,
    reason: Option<Seq<char>>,
)
    ensures
        kind == "terminal.closed"@ && reason is Some ==> log_after(log, kind, reason) == (
        SessionLogView { close_reason: reason->0, tail: log.tail }),
        kind != "terminal.closed"@ || reason is None ==> log_after(log, kind, reason) == log,
{
}

} // verus!
