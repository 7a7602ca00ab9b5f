//! What each thing that can happen to the pane wrapper does, and what it leaves
//! alone, over all states and inputs.

use vstd::prelude::*;

use crate::args::{optional_text, ArgsView};
use crate::laws::{after, can_happen, names_its_mode, opening, Attempt, Event};
use crate::mode::Mode;
use crate::mouse::{forwarded, holds_marker, holds_wheel_press, pieces, scrolls, Scroll};
use crate::state::{
    classifying, clearing_hint, connected, connecting, exiting, expiring, forwarding, hinting,
    idle_moment, last_words, observed_size, polling, polling_settled, reconnect_status,
    releasing_idle, rescheduling, resizing, sending_scrolls, settling_in, showing, starting,
    switching, syncing_cursor, syncing_grab, ticking, typing, AppView, EffectView, Session,
    LATEST,
};
use crate::text::{lines_of, number_of, trimmed, written_numbers_are_read_back};
use crate::wire::{input_line_of, resize_line_of, scroll_line_of, Frame};

verus! {

// ---------------------------------------------------------------------------
// speaking of effects

/// Whether two effects are of one kind, whatever they hold.
pub open spec fn alike(a: EffectView, b: EffectView) -> bool {
    &&& a is Status <==> b is Status
    &&& a is Paint <==> b is Paint
    &&& a is Invalidate <==> b is Invalidate
    &&& a is ResetPredictions <==> b is ResetPredictions
    &&& a is ExpirePredictions <==> b is ExpirePredictions
    &&& a is Predict <==> b is Predict
    &&& a is Spawn <==> b is Spawn
    &&& a is Stop <==> b is Stop
    &&& a is Finish <==> b is Finish
    &&& a is Kill <==> b is Kill
    &&& a is Send <==> b is Send
    &&& a is Poll <==> b is Poll
    &&& a is Write <==> b is Write
    &&& a is ResizeGrid <==> b is ResizeGrid
    &&& a is ClearGrid <==> b is ClearGrid
    &&& a is Apply <==> b is Apply
    &&& a is Dump <==> b is Dump
}

/// Whether `e` stands at `i`, and nothing of its kind anywhere else.
pub open spec fn only_at(es: Seq<EffectView>, i: int, e: EffectView) -> bool {
    &&& 0 <= i < es.len()
    &&& es[i] == e
    &&& forall|j: int| 0 <= j < es.len() && alike(#[trigger] es[j], e) ==> j == i
}

/// Whether `e` is there exactly once, and nothing else of its kind.
pub open spec fn once(es: Seq<EffectView>, e: EffectView) -> bool {
    exists|i: int| only_at(es, i, e)
}

/// Whether nothing of the kind of `e` is there.
pub open spec fn none_like(es: Seq<EffectView>, e: EffectView) -> bool {
    forall|j: int| 0 <= j < es.len() ==> !alike(#[trigger] es[j], e)
}

/// Whether all effects of the one kind come before all of the other.
pub open spec fn first_then(es: Seq<EffectView>, a: EffectView, b: EffectView) -> bool {
    forall|i: int, j: int|
        0 <= i < es.len() && 0 <= j < es.len() && alike(#[trigger] es[i], a) && alike(
            #[trigger] es[j],
            b,
        ) ==> i < j
}

/// The lines that are written to the session, in order.
pub open spec fn sent(es: Seq<EffectView>) -> Seq<Seq<char>>
    decreases es.len(),
{
    if es.len() == 0 {
        Seq::empty()
    } else {
        match es.last() {
            EffectView::Send(line) => sent(es.drop_last()).push(line),
            _ => sent(es.drop_last()),
        }
    }
}

proof fn sent_in_turn(a: Seq<EffectView>, b: Seq<EffectView>)
    ensures
        sent(a + b) == sent(a) + sent(b),
    decreases b.len(),
{
    if b.len() == 0 {
        assert(a + b =~= a);
        assert(sent(a) + sent(b) =~= sent(a));
    } else {
        assert((a + b).drop_last() =~= a + b.drop_last());
        sent_in_turn(a, b.drop_last());
        assert(sent(a + b) =~= sent(a) + sent(b));
    }
}

proof fn nothing_sent(es: Seq<EffectView>)
    requires
        forall|i: int| 0 <= i < es.len() ==> !(#[trigger] es[i] is Send),
    ensures
        sent(es) == Seq::<Seq<char>>::empty(),
    decreases es.len(),
{
    if es.len() > 0 {
        nothing_sent(es.drop_last());
    }
}

proof fn all_sent(es: Seq<EffectView>, lines: Seq<Seq<char>>)
    requires
        es.len() == lines.len(),
        forall|i: int| 0 <= i < es.len() ==> #[trigger] es[i] == EffectView::Send(lines[i]),
    ensures
        sent(es) == lines,
    decreases es.len(),
{
    if es.len() > 0 {
        all_sent(es.drop_last(), lines.drop_last());
        assert(es.last() == EffectView::Send(lines.last()));
        assert(lines =~= lines.drop_last().push(lines.last()));
    } else {
        assert(lines =~= Seq::empty());
    }
}

/// Whether effects draw the screen where there is a terminal, once and last, and
/// not at all where there is none.
pub open spec fn drawn_last(es: Seq<EffectView>, tty: bool) -> bool {
    if tty {
        only_at(es, es.len() - 1, EffectView::Paint)
    } else {
        none_like(es, EffectView::Paint)
    }
}

// ---------------------------------------------------------------------------
// frames

/// Whether the session with this number is the pane's.
pub open spec fn has_session(s: AppView, gen: u64) -> bool {
    s.session is Some && s.session->0.gen == gen
}

/// Output of the current session is applied to the screen, whatever the frame
/// says of itself: once, after the screen has got the frame's size and, where
/// the frame replaces everything, after it was emptied. A size that the frame
/// does not give stays as it is. Then the screen is drawn, or printed where it
/// is to be dumped.
#[verifier::rlimit(40)]
pub proof fn output_is_applied(
    s: AppView,
    gen: u64,
    frame: Frame,
    text: Option<Seq<char>>,
    grid: (usize, usize),
)
    requires
        has_session(s, gen),
        frame.kind@ == "terminal.frame"@,
        frame.bytes is Some,
    ensures
        ({
            let es = showing(s, gen, frame, text, grid).1;
            let apply = EffectView::Apply(text->0);
            let resize = EffectView::ResizeGrid {
                width: frame.width.unwrap_or(grid.0) as nat,
                height: frame.height.unwrap_or(grid.1) as nat,
            };
            let dump = EffectView::Dump {
                seq: frame.seq,
                full: frame.full,
                width: frame.width.unwrap_or(0) as nat,
                height: frame.height.unwrap_or(0) as nat,
            };
            &&& text is Some ==> once(es, apply)
            &&& text is None ==> none_like(es, apply)
            &&& once(es, resize)
            &&& frame.full == Some(true) ==> once(es, EffectView::ClearGrid)
            &&& frame.full != Some(true) ==> none_like(es, EffectView::ClearGrid)
            &&& first_then(es, resize, EffectView::ClearGrid)
            &&& first_then(es, resize, apply)
            &&& first_then(es, EffectView::ClearGrid, apply)
            &&& only_at(es, 0, EffectView::Status(Seq::empty()))
            &&& s.args.dump ==> only_at(es, es.len() - 1, dump) && none_like(es, EffectView::Paint)
            &&& !s.args.dump ==> drawn_last(es, s.tty) && none_like(es, dump)
            &&& forall|i: int|
                0 <= i < es.len() ==> {
                    ||| #[trigger] es[i] is Status
                    ||| es[i] is ResizeGrid
                    ||| es[i] is ClearGrid
                    ||| es[i] is Apply
                    ||| es[i] is Dump
                    ||| es[i] is Paint
                }
        }),
{
    reveal_strlit("terminal.frame");
    reveal_strlit("terminal.closed");
    assert("terminal.frame"@[9] != "terminal.closed"@[9]);
    let es = showing(s, gen, frame, text, grid).1;
    let apply = EffectView::Apply(text->0);
    let resize = EffectView::ResizeGrid {
        width: frame.width.unwrap_or(grid.0) as nat,
        height: frame.height.unwrap_or(grid.1) as nat,
    };
    let status = EffectView::Status(Seq::empty());
    let c: int = if frame.full == Some(true) {
        1
    } else {
        0
    };
    assert(only_at(es, 0, status));
    assert(only_at(es, 1, resize));
    if c == 1 {
        assert(only_at(es, 2, EffectView::ClearGrid));
    }
    if text is Some {
        assert(only_at(es, 2 + c, apply));
    }
}

/// A session that closes is told to the user with its reason, and nothing else
/// happens then.
pub proof fn closing_is_told(
    s: AppView,
    gen: u64,
    frame: Frame,
    text: Option<Seq<char>>,
    grid: (usize, usize),
)
    requires
        has_session(s, gen),
        frame.kind@ == "terminal.closed"@,
    ensures
        ({
            let (next, es) = showing(s, gen, frame, text, grid);
            &&& next == s
            &&& frame.reason is None ==> once(es, EffectView::Status("remote terminal closed"@))
            &&& frame.reason is Some ==> once(
                es,
                EffectView::Status("remote terminal closed"@ + ": "@ + frame.reason->0@),
            )
            &&& drawn_last(es, s.tty)
            &&& es.len() <= 2
        }),
{
    let es = showing(s, gen, frame, text, grid).1;
    let base = "remote terminal closed"@;
    match optional_text(frame.reason) {
        Some(reason) => {
            assert(base + ": "@ + reason =~= base + (": "@ + reason));
            assert(only_at(es, 0, EffectView::Status(base + ": "@ + reason)));
        },
        None => {
            assert(base + Seq::<char>::empty() =~= base);
            assert(only_at(es, 0, EffectView::Status(base)));
        },
    }
}

/// A message of any other kind, or a frame without output, does nothing.
pub proof fn other_messages_do_nothing(
    s: AppView,
    gen: u64,
    frame: Frame,
    text: Option<Seq<char>>,
    grid: (usize, usize),
)
    requires
        frame.kind@ != "terminal.closed"@,
        frame.kind@ != "terminal.frame"@ || frame.bytes is None,
    ensures
        showing(s, gen, frame, text, grid) == (s, Seq::<EffectView>::empty()),
{
}

// ---------------------------------------------------------------------------
// reconnects

/// A reconnect waits one second, then two, then five, then ten each time.
pub open spec fn waits(failures_before: nat, nanos: int) -> bool {
    &&& failures_before == 0 ==> nanos == 1_000_000_000
    &&& failures_before == 1 ==> nanos == 2_000_000_000
    &&& failures_before == 2 ==> nanos == 5_000_000_000
    &&& failures_before >= 3 ==> nanos == 10_000_000_000
}

/// Setting a reconnect sets it in the mode that was asked for, after the time
/// that the row of failures says, and counts one more failure. Nothing else of
/// the state changes, and the user is told how long, in which mode, and why.
pub proof fn a_reconnect_is_set(s: AppView, m: Mode, reason: Seq<char>, now: u128)
    requires
        now <= LATEST,
        s.backoff_idx < usize::MAX,
    ensures
        ({
            let (next, es) = rescheduling(s, m, reason, now);
            &&& next.reconnect_at is Some
            &&& (next.reconnect_at->0).1 == m
            &&& waits(s.backoff_idx as nat, (next.reconnect_at->0).0 - now)
            &&& next.backoff_idx == s.backoff_idx + 1
            &&& next == (AppView {
                reconnect_at: next.reconnect_at,
                backoff_idx: next.backoff_idx,
                ..s
            })
            &&& es.len() <= 2
            &&& drawn_last(es, s.tty)
            &&& exists|seconds: Seq<char>|
                {
                    &&& number_of(seconds, 10) is Some
                    &&& number_of(seconds, 10)->0 * 1_000_000_000 == (next.reconnect_at->0).0 - now
                    &&& once(
                        es,
                        EffectView::Status(
                            #[trigger] announced(seconds, m, reason),
                        ),
                    )
                }
        }),
{
    let (next, es) = rescheduling(s, m, reason, now);
    let millis: nat = ((next.reconnect_at->0).0 - now) as nat / 1_000_000;
    let seconds = crate::text::decimal(millis / 1000);
    written_numbers_are_read_back(millis / 1000, 10);
    let status = reconnect_status(millis as u64, m, reason);
    assert(status =~= announced(seconds, m, reason));
    assert(only_at(es, 0, EffectView::Status(announced(seconds, m, reason))));
}

/// What the user is told of a coming reconnect.
pub open spec fn announced(seconds: Seq<char>, m: Mode, reason: Seq<char>) -> Seq<char> {
    let head = "reconnecting in "@ + seconds + "s ("@ + (if m == Mode::Control {
        "control"@
    } else {
        "observe"@
    }) + ")"@;
    if reason.len() == 0 {
        head
    } else {
        head + " — "@ + reason
    }
}

/// Whether an exit is the second quick one in a row of a writable session: it
/// took less than four seconds.
pub open spec fn is_refused(s: AppView, exited: Mode, uptime: u128) -> bool {
    exited == Mode::Control && s.control_failures == 1 && uptime < 4_000_000_000
}

/// A session that ends is reconnected in the mode that it had: a pane that only
/// watched goes on watching, one in control goes on to control. Of writable
/// sessions the quick ends in a row are counted; nothing else changes.
pub proof fn an_ended_session_comes_back(
    s: AppView,
    reason: Seq<char>,
    uptime: u128,
    now: u128,
)
    requires
        s.valid(),
        s.session is Some,
        s.backoff_idx < usize::MAX,
        !is_refused(s, s.session->0.mode, uptime),
        now <= LATEST,
    ensures
        ({
            let had = s.session->0;
            let (next, es) = exiting(s, had.gen, had.mode, reason, uptime, now);
            &&& next.reconnect_at is Some
            &&& (next.reconnect_at->0).1 == had.mode
            &&& waits(s.backoff_idx as nat, (next.reconnect_at->0).0 - now)
            &&& next.backoff_idx == s.backoff_idx + 1
            &&& had.mode == Mode::Observe ==> next.control_failures == s.control_failures
            &&& had.mode == Mode::Control && uptime < 4_000_000_000 ==> next.control_failures == 1
            &&& had.mode == Mode::Control && uptime >= 4_000_000_000 ==> next.control_failures == 0
            &&& next == (AppView {
                session: None,
                reconnect_at: next.reconnect_at,
                backoff_idx: next.backoff_idx,
                control_failures: next.control_failures,
                ..s
            })
            &&& es == rescheduling(s, had.mode, last_words(lines_of(reason)), now).1
        }),
{
    let had = s.session->0;
    let (next, es) = exiting(s, had.gen, had.mode, reason, uptime, now);
    let gone = AppView { session: None, control_failures: next.control_failures, ..s };
    let why = last_words(lines_of(reason));
    a_reconnect_is_set(gone, had.mode, why, now);
    assert(next == rescheduling(gone, had.mode, why, now).0);
}

/// Control that was refused twice is given up for watching: nothing is
/// reconnected, a switch to watching begins, and the user is told why and how
/// to try again. Input that waits is kept.
pub proof fn refused_control_is_given_up(s: AppView, reason: Seq<char>, uptime: u128, now: u128)
    requires
        s.valid(),
        s.session is Some,
        is_refused(s, s.session->0.mode, uptime),
        now <= LATEST,
    ensures
        ({
            let had = s.session->0;
            let why = last_words(lines_of(reason));
            let gone = AppView { session: None, ..s };
            let (next, es) = exiting(s, had.gen, had.mode, reason, uptime, now);
            &&& next == (AppView {
                session: None,
                control_failures: 0,
                control_sticky: true,
                switching_to: Some(Mode::Observe),
                switch_at: Some((now + 200_000_000) as u128),
                hint_clear_at: Some((now + 1_500_000_000) as u128),
                ..s
            })
            &&& why.len() == 0 ==> es == switching(gone, Mode::Observe, now).1 + hinting(
                s,
                "control unavailable — viewing only"@ + "; type to retry"@,
                now,
            ).1
            &&& why.len() > 0 ==> es == switching(gone, Mode::Observe, now).1 + hinting(
                s,
                "control unavailable — viewing only"@ + " ("@ + why + ")"@ + "; type to retry"@,
                now,
            ).1
        }),
{
    let had = s.session->0;
    let why = last_words(lines_of(reason));
    let gone = AppView { session: None, ..s };
    let es = exiting(s, had.gen, had.mode, reason, uptime, now).1;
    let head = "control unavailable — viewing only"@;
    let tail = "; type to retry"@;
    let given_up = AppView { session: None, control_failures: 0, control_sticky: true, ..s };
    assert(switching(gone, Mode::Observe, now).1 == switching(given_up, Mode::Observe, now).1);
    if why.len() == 0 {
        assert(head + Seq::<char>::empty() =~= head);
    } else {
        assert(head + (" ("@ + why + ")"@) + tail =~= head + " ("@ + why + ")"@ + tail);
    }
}

/// What is said of a session's end is its last line that is not blank, trimmed;
/// nothing where all are blank.
pub proof fn the_last_words_count(text: Seq<Seq<char>>)
    ensures
        last_words(text).len() == 0 ==> forall|i: int|
            0 <= i < text.len() ==> trimmed(#[trigger] text[i]).len() == 0,
        last_words(text).len() > 0 ==> exists|i: int|
            0 <= i < text.len() && trimmed(#[trigger] text[i]) == last_words(text) && forall|j: int|
                i < j < text.len() ==> trimmed(#[trigger] text[j]).len() == 0,
    decreases text.len(),
{
    if text.len() > 0 {
        let n = text.len() - 1;
        if trimmed(text[n]).len() > 0 {
            assert(last_words(text) == trimmed(text[n]));
        } else {
            let rest = text.drop_last();
            the_last_words_count(rest);
            if last_words(text).len() > 0 {
                let i = choose|i: int|
                    0 <= i < rest.len() && trimmed(#[trigger] rest[i]) == last_words(rest)
                        && forall|j: int|
                        i < j < rest.len() ==> trimmed(#[trigger] rest[j]).len() == 0;
                assert(trimmed(text[i]) == last_words(text));
                assert forall|j: int| i < j < text.len() implies trimmed(#[trigger] text[j]).len()
                    == 0 by {
                    if j < n {
                        assert(rest[j] == text[j]);
                    }
                }
            } else {
                assert forall|i: int| 0 <= i < text.len() implies trimmed(
                    #[trigger] text[i],
                ).len() == 0 by {
                    if i < n {
                        assert(rest[i] == text[i]);
                    }
                }
            }
        }
    }
}

// ---------------------------------------------------------------------------
// switches, hints and polls

/// Where the wrapper is going: the mode that a switch leads to, or else the one
/// that it is in.
pub open spec fn goal(s: AppView) -> Mode {
    if s.switching_to is Some {
        s.switching_to->0
    } else {
        s.mode
    }
}

/// A switch lets the session go, with control given back where it was held, has
/// everything drawn anew, says what it is about, and opens its session a fifth
/// of a second later. A waiting reconnect is forgotten, and nothing else
/// changes. A switch to where the wrapper is going already does nothing.
pub proof fn a_switch_begins(s: AppView, m: Mode, now: u128)
    requires
        now <= LATEST,
    ensures
        goal(s) == m ==> switching(s, m, now) == (s, Seq::<EffectView>::empty()),
        goal(s) != m ==> {
            let (next, es) = switching(s, m, now);
            &&& next == (AppView {
                reconnect_at: None,
                switching_to: Some(m),
                session: None,
                switch_at: Some((now + 200_000_000) as u128),
                ..s
            })
            &&& s.session is Some ==> only_at(
                es,
                0,
                EffectView::Stop {
                    gen: s.session->0.gen,
                    release: s.session->0.mode == Mode::Control,
                },
            )
            &&& s.session is None ==> none_like(es, EffectView::Stop { gen: 0, release: true })
            &&& once(es, EffectView::Invalidate)
            &&& m == Mode::Control ==> once(es, EffectView::Status("taking control…"@))
            &&& m == Mode::Observe ==> once(es, EffectView::Status("releasing…"@))
            &&& drawn_last(es, s.tty)
            &&& forall|i: int|
                0 <= i < es.len() ==> #[trigger] es[i] is Stop || es[i] is Invalidate
                    || es[i] is Status || es[i] is Paint
        },
{
    if goal(s) != m {
        let es = switching(s, m, now).1;
        let n: int = if s.session is Some {
            1
        } else {
            0
        };
        assert(only_at(es, n, EffectView::Invalidate));
        assert(es[n + 1] is Status);
        assert(only_at(es, n + 1, es[n + 1]));
        assert(once(es, es[n + 1]));
    }
}

/// A hint is shown at once, for one and a half seconds; it changes nothing else.
pub proof fn a_hint_is_shown(s: AppView, text: Seq<char>, now: u128)
    requires
        now <= LATEST,
    ensures
        ({
            let (next, es) = hinting(s, text, now);
            &&& next == (AppView { hint_clear_at: Some((now + 1_500_000_000) as u128), ..s })
            &&& only_at(es, 0, EffectView::Status(text))
            &&& drawn_last(es, s.tty)
            &&& es.len() <= 2
        }),
{
}

/// The remote foreground is polled unless it was polled less than one and a half
/// seconds ago; a forced poll is never left out. A poll notes its moment and
/// changes nothing else.
pub proof fn polls_are_made(s: AppView, force: bool, now: u128)
    ensures
        ({
            let (next, es) = polling(s, force, now);
            let lately = s.fg_poll_at is Some && now - s.fg_poll_at->0 < 1_500_000_000;
            &&& !force && lately ==> next == s && es.len() == 0
            &&& force || !lately ==> next == (AppView { fg_poll_at: Some(now), ..s }) && es
                == seq![EffectView::Poll]
        }),
{
}

// ---------------------------------------------------------------------------
// opening sessions

/// The size of a read-only request: the given one where that is fixed or there
/// is no terminal, and otherwise on each axis the larger of the given one and
/// the terminal.
pub open spec fn covers(s: AppView, term: (usize, usize), cols: nat, rows: nat) -> bool {
    if s.args.size_fixed || !s.tty {
        cols == s.args.cols && rows == s.args.rows
    } else {
        &&& cols >= s.args.cols && cols >= term.0 && (cols == s.args.cols || cols == term.0)
        &&& rows >= s.args.rows && rows >= term.1 && (rows == s.args.rows || rows == term.1)
    }
}

/// A session is asked for once, in the mode and under the number that follows
/// the last one. A writable one has exactly the size of the local terminal,
/// whatever the arguments say; a read-only one covers what it has to. Guesses
/// begin anew, and a session that is still there is killed first.
pub proof fn a_session_is_asked_for(s: AppView, m: Mode, term: (usize, usize))
    requires
        s.next_gen < u64::MAX,
    ensures
        ({
            let (next, es) = connecting(s, m, term);
            let spawn = es.last();
            &&& es.len() >= 2
            &&& spawn is Spawn
            &&& only_at(es, es.len() - 1, spawn)
            &&& spawn->Spawn_mode == m
            &&& spawn->Spawn_gen == s.next_gen + 1
            &&& m == Mode::Control ==> spawn->cols == term.0 && spawn->rows == term.1
            &&& m == Mode::Observe ==> covers(s, term, spawn->cols, spawn->rows)
            &&& only_at(es, 0, EffectView::ResetPredictions)
            &&& s.session is Some ==> es.len() == 3 && es[1] == (EffectView::Kill {
                gen: s.session->0.gen,
            })
            &&& s.session is None ==> es.len() == 2
            &&& next == (AppView {
                mode: m,
                session: None,
                next_gen: (s.next_gen + 1) as u64,
                ..s
            })
        }),
{
}

/// The size of a read-only request is what it has to be.
pub proof fn the_request_is_as_large_as_it_has_to_be(s: AppView, term: (usize, usize))
    ensures
        covers(s, term, observed_size(s, term).0, observed_size(s, term).1),
{
}

/// A session that came is the pane's, under the number and in the mode that were
/// asked for. A writable one is sent what was typed meanwhile, in order, and
/// counts as input; a read-only one drops it. The remote foreground is polled
/// unless that was done lately, and the user learns how to give control back
/// where that is possible.
#[verifier::rlimit(40)]
pub proof fn a_session_has_come(s: AppView, now: u128)
    ensures
        ({
            let (next, es) = connected(s, now);
            let control = s.mode == Mode::Control;
            &&& next == (AppView {
                session: Some(Session { gen: s.next_gen, mode: s.mode }),
                pending_input: Seq::empty(),
                last_input: next.last_input,
                fg_poll_at: polling(s, false, now).0.fg_poll_at,
                ..s
            })
            &&& control ==> next.last_input == now
            &&& !control ==> next.last_input == s.last_input
            &&& control ==> sent(es) == s.pending_input.map_values(
                |bytes: Seq<u8>| input_line_of(bytes),
            )
            &&& !control ==> sent(es) == Seq::<Seq<char>>::empty()
            &&& polling(s, false, now).1.len() == 1 ==> once(es, EffectView::Poll)
            &&& polling(s, false, now).1.len() == 0 ==> none_like(es, EffectView::Poll)
            &&& control && !s.args.always_control ==> only_at(
                es,
                es.len() - 1,
                EffectView::Status("CONTROL — ctrl+\\ to release"@),
            )
            &&& !control || s.args.always_control ==> only_at(
                es,
                es.len() - 1,
                EffectView::Status(Seq::empty()),
            )
            &&& forall|i: int|
                0 <= i < es.len() ==> #[trigger] es[i] is Send || es[i] is Poll || es[i] is Status
        }),
{
    let (next, es) = connected(s, now);
    let control = s.mode == Mode::Control;
    let lines = if control {
        s.pending_input.map_values(|bytes: Seq<u8>| input_line_of(bytes))
    } else {
        Seq::empty()
    };
    let n = lines.len() as int;
    let flushed = es.take(n);
    let rest = es.skip(n);
    assert(es =~= flushed + rest);
    assert forall|i: int| 0 <= i < flushed.len() implies #[trigger] flushed[i] == EffectView::Send(
        lines[i],
    ) by {
        assert(flushed[i] == es[i]);
    }
    all_sent(flushed, lines);
    assert forall|i: int| 0 <= i < rest.len() implies !(#[trigger] rest[i] is Send) by {
        assert(rest[i] == es[n + i]);
    }
    nothing_sent(rest);
    sent_in_turn(flushed, rest);
    assert(lines + Seq::<Seq<char>>::empty() =~= lines);
    if polling(s, false, now).1.len() == 1 {
        assert(only_at(es, n, EffectView::Poll));
    }
}

/// A session that did not come is tried again in the mode that was asked for.
/// One that came is there. Either way the wrapper is in that mode, no switch is
/// under way any longer, and the attempt used up one number.
pub proof fn an_attempt_has_its_outcome(
    s: AppView,
    m: Mode,
    term: (usize, usize),
    failure: Option<Seq<char>>,
    now: u128,
)
    requires
        s.next_gen < u64::MAX,
        s.backoff_idx < usize::MAX,
        now <= LATEST,
    ensures
        ({
            let (next, es) = opening(s, m, term, failure, now);
            let asked = connecting(s, m, term);
            &&& next.mode == m
            &&& next.next_gen == s.next_gen + 1
            &&& next.switching_to == s.switching_to
            &&& next.control_sticky == s.control_sticky
            &&& next.control_failures == s.control_failures
            &&& failure is None ==> next.session == Some(
                Session { gen: (s.next_gen + 1) as u64, mode: m },
            ) && next.reconnect_at == s.reconnect_at && next.backoff_idx == s.backoff_idx
            &&& failure is Some ==> {
                &&& next.session is None
                &&& next.reconnect_at is Some
                &&& (next.reconnect_at->0).1 == m
                &&& waits(s.backoff_idx as nat, (next.reconnect_at->0).0 - now)
                &&& next.pending_input == s.pending_input
                &&& next.last_input == s.last_input
            }
            &&& es.take(asked.1.len() as int) == asked.1
            &&& failure is None ==> es.skip(asked.1.len() as int) == connected(asked.0, now).1
            &&& failure is Some ==> es.skip(asked.1.len() as int) == rescheduling(
                asked.0,
                m,
                failure->0,
                now,
            ).1
        }),
{
    let (next, es) = opening(s, m, term, failure, now);
    let asked = connecting(s, m, term);
    match failure {
        None => {
            assert(es.skip(asked.1.len() as int) =~= connected(asked.0, now).1);
        },
        Some(reason) => {
            a_reconnect_is_set(asked.0, m, reason, now);
            assert(es.skip(asked.1.len() as int) =~= rescheduling(asked.0, m, reason, now).1);
        },
    }
    assert(es.take(asked.1.len() as int) =~= asked.1);
}

/// A switch opens its session when its moment has come and not before, in the
/// mode that it leads to; then it is over.
pub proof fn a_switch_is_carried_out(s: AppView, attempt: Attempt, now: u128)
    requires
        s.valid(),
    ensures
        ({
            let event = Event::SwitchDue { term: attempt.term, failure: attempt.failure };
            let arrived = s.switch_at is Some && s.switch_at->0 <= now;
            &&& !arrived ==> after(s, event, now) == (s, Seq::<EffectView>::empty())
            &&& arrived ==> after(s, event, now) == opening(
                AppView { switch_at: None, switching_to: None, ..s },
                s.switching_to->0,
                attempt.term,
                attempt.failure,
                now,
            )
        }),
{
}

/// A reconnect opens its session when its moment has come and not before, in the
/// mode that it was set in; then it is over.
pub proof fn a_reconnect_is_carried_out(s: AppView, attempt: Attempt, now: u128)
    ensures
        ({
            let event = Event::ReconnectDue { term: attempt.term, failure: attempt.failure };
            let arrived = s.reconnect_at is Some && (s.reconnect_at->0).0 <= now;
            &&& !arrived ==> after(s, event, now) == (s, Seq::<EffectView>::empty())
            &&& arrived ==> after(s, event, now) == opening(
                AppView { reconnect_at: None, ..s },
                (s.reconnect_at->0).1,
                attempt.term,
                attempt.failure,
                now,
            )
        }),
{
}

// ---------------------------------------------------------------------------
// input

/// Whether input is for a pane that only watches, or is about to.
pub open spec fn reads_only(s: AppView) -> bool {
    s.mode == Mode::Observe || s.switching_to == Some(Mode::Observe)
}

/// A keystroke at a pane that only watches is kept behind what is kept already
/// and has control taken, like any other switch; nothing else changes.
pub proof fn a_keystroke_is_kept_and_takes_control(s: AppView, buf: Seq<u8>, now: u128)
    requires
        reads_only(s),
        !holds_marker(buf),
    ensures
        typing(s, buf, now).0.pending_input == s.pending_input.push(buf),
        goal(typing(s, buf, now).0) == Mode::Control,
        typing(s, buf, now).0 == (AppView {
            pending_input: s.pending_input.push(buf),
            control_sticky: false,
            ..switching(s, Mode::Control, now).0
        }),
        typing(s, buf, now).1 == switching(s, Mode::Control, now).1,
{
}

/// The mouse at a pane that only watches: without a wheel press it does nothing.
/// A wheel press takes control where control was given up before, and otherwise
/// tells how to take it; it is never kept as input.
pub proof fn the_mouse_over_a_watching_pane(s: AppView, buf: Seq<u8>, now: u128)
    requires
        reads_only(s),
        holds_marker(buf),
        now <= LATEST,
    ensures
        !holds_wheel_press(pieces(buf, 0)) ==> typing(s, buf, now) == (
            s,
            Seq::<EffectView>::empty(),
        ),
        holds_wheel_press(pieces(buf, 0)) && s.control_sticky ==> {
            &&& goal(typing(s, buf, now).0) == Mode::Control
            &&& typing(s, buf, now).0 == (AppView {
                control_sticky: false,
                ..switching(s, Mode::Control, now).0
            })
            &&& typing(s, buf, now).1 == switching(s, Mode::Control, now).1
        },
        holds_wheel_press(pieces(buf, 0)) && !s.control_sticky ==> {
            &&& typing(s, buf, now).0 == (AppView {
                hint_clear_at: Some((now + 1_500_000_000) as u128),
                ..s
            })
            &&& once(
                typing(s, buf, now).1,
                EffectView::Status("read-only — type to take control"@),
            )
            &&& drawn_last(typing(s, buf, now).1, s.tty)
            &&& typing(s, buf, now).1.len() <= 2
        },
{
    a_hint_is_shown(s, "read-only — type to take control"@, now);
}

/// The one byte of ctrl and backslash.
pub open spec fn is_ctrl_backslash(buf: Seq<u8>) -> bool {
    buf == seq![0x1cu8]
}

/// In a writable pane ctrl and backslash gives control back like any other
/// switch, or does nothing where control is kept always. It counts as input, is
/// not kept and is not sent.
pub proof fn ctrl_backslash_releases(s: AppView, now: u128)
    requires
        !reads_only(s),
    ensures
        ({
            let buf = seq![0x1cu8];
            let (next, es) = typing(s, buf, now);
            &&& s.args.always_control ==> next == (AppView { last_input: now, ..s }) && es.len()
                == 0
            &&& !s.args.always_control ==> goal(next) == Mode::Observe && next == (AppView {
                last_input: now,
                control_sticky: false,
                ..switching(s, Mode::Observe, now).0
            }) && es == switching(s, Mode::Observe, now).1
        }),
{
}

/// Other input while there is no writable session yet is kept behind what is
/// kept already, and makes a waiting reconnect due at once, in the mode that it
/// has. Nothing is done outside.
pub proof fn early_input_waits(s: AppView, buf: Seq<u8>, now: u128)
    requires
        s.valid(),
        !reads_only(s),
        !is_ctrl_backslash(buf),
        s.session is None,
    ensures
        typing(s, buf, now).1.len() == 0,
        s.reconnect_at is None ==> typing(s, buf, now).0 == (AppView {
            last_input: now,
            pending_input: s.pending_input.push(buf),
            ..s
        }),
        s.reconnect_at is Some ==> typing(s, buf, now).0 == (AppView {
            last_input: now,
            pending_input: s.pending_input.push(buf),
            reconnect_at: Some((now, (s.reconnect_at->0).1)),
            ..s
        }),
{
    if buf.len() == 1 && buf[0] == 0x1c {
        assert(buf =~= seq![0x1cu8]);
    }
}

/// Other input into a writable session: a scroll for each wheel press, in order,
/// and then one line with all that is forwarded, where anything is. What is
/// forwarded is also what is guessed about, after it was sent. The foreground is
/// polled like at any other time, and once more a moment later; the input counts
/// for the idle limit; nothing else changes.
pub proof fn input_is_forwarded(s: AppView, buf: Seq<u8>, now: u128)
    requires
        s.valid(),
        !reads_only(s),
        !is_ctrl_backslash(buf),
        s.session is Some,
        now <= LATEST,
    ensures
        ({
            let (next, es) = typing(s, buf, now);
            let rest = forwarded(pieces(buf, 0), s.remote_is_shell);
            let scrolled = scrolls(pieces(buf, 0)).map_values(|c: Scroll| scroll_line_of(c));
            &&& rest.len() == 0 ==> sent(es) == scrolled && none_like(es, EffectView::Predict(rest))
            &&& rest.len() > 0 ==> sent(es) == scrolled.push(input_line_of(rest)) && only_at(
                es,
                es.len() - 1,
                EffectView::Predict(rest),
            )
            &&& polling(s, false, now).1.len() == 1 ==> only_at(es, 0, EffectView::Poll)
            &&& polling(s, false, now).1.len() == 0 ==> none_like(es, EffectView::Poll)
            &&& forall|i: int|
                0 <= i < es.len() ==> #[trigger] es[i] is Send || es[i] is Poll || es[i] is Predict
            &&& next == (AppView {
                last_input: now,
                settle_at: Some((now + 350_000_000) as u128),
                fg_poll_at: polling(s, false, now).0.fg_poll_at,
                ..s
            })
        }),
{
    if buf.len() == 1 && buf[0] == 0x1c {
        assert(buf =~= seq![0x1cu8]);
    }
    assert(typing(s, buf, now) == forwarding(s, buf, now));
    forwarded_lines(s, buf, now);
    forwarded_kinds(s, buf, now);
}

/// Forwarding is, in this order, a poll or none, the scrolls, and what is
/// forwarded, sent and then guessed about.
proof fn forwarding_in_parts(s: AppView, buf: Seq<u8>, now: u128) -> (parts: (
    Seq<EffectView>,
    Seq<EffectView>,
    Seq<EffectView>,
))
    ensures
        forwarding(s, buf, now).1 == parts.0 + parts.1 + parts.2,
        parts.0 == polling(s, false, now).1,
        parts.1 == sending_scrolls(scrolls(pieces(buf, 0))),
        ({
            let rest = forwarded(pieces(buf, 0), s.remote_is_shell);
            &&& rest.len() == 0 ==> parts.2 == Seq::<EffectView>::empty()
            &&& rest.len() > 0 ==> parts.2 == seq![
                EffectView::Send(input_line_of(rest)),
                EffectView::Predict(rest),
            ]
        }),
{
    let rest = forwarded(pieces(buf, 0), s.remote_is_shell);
    let polled = polling(s, false, now).1;
    assert(polled == polling(AppView { last_input: now, ..s }, false, now).1);
    (
        polled,
        sending_scrolls(scrolls(pieces(buf, 0))),
        if rest.len() == 0 {
            Seq::empty()
        } else {
            seq![EffectView::Send(input_line_of(rest)), EffectView::Predict(rest)]
        },
    )
}

proof fn forwarded_lines(s: AppView, buf: Seq<u8>, now: u128)
    ensures
        ({
            let es = forwarding(s, buf, now).1;
            let rest = forwarded(pieces(buf, 0), s.remote_is_shell);
            let scrolled = scrolls(pieces(buf, 0)).map_values(|c: Scroll| scroll_line_of(c));
            &&& rest.len() == 0 ==> sent(es) == scrolled
            &&& rest.len() > 0 ==> sent(es) == scrolled.push(input_line_of(rest))
        }),
{
    let rest = forwarded(pieces(buf, 0), s.remote_is_shell);
    let (polled, middle, end) = forwarding_in_parts(s, buf, now);
    let scrolled = scrolls(pieces(buf, 0)).map_values(|c: Scroll| scroll_line_of(c));
    nothing_sent(polled);
    all_sent(middle, scrolled);
    sent_in_turn(polled, middle);
    sent_in_turn(polled + middle, end);
    assert(Seq::<Seq<char>>::empty() + scrolled =~= scrolled);
    if rest.len() == 0 {
        assert(scrolled + Seq::<Seq<char>>::empty() =~= scrolled);
    } else {
        let first = seq![EffectView::Send(input_line_of(rest))];
        all_sent(first, seq![input_line_of(rest)]);
        assert(end.drop_last() =~= first);
        assert(sent(end) == sent(first));
        assert(scrolled + seq![input_line_of(rest)] =~= scrolled.push(input_line_of(rest)));
    }
}

proof fn forwarded_kinds(s: AppView, buf: Seq<u8>, now: u128)
    ensures
        ({
            let es = forwarding(s, buf, now).1;
            let rest = forwarded(pieces(buf, 0), s.remote_is_shell);
            &&& rest.len() == 0 ==> none_like(es, EffectView::Predict(rest))
            &&& rest.len() > 0 ==> only_at(es, es.len() - 1, EffectView::Predict(rest))
            &&& polling(s, false, now).1.len() == 1 ==> only_at(es, 0, EffectView::Poll)
            &&& polling(s, false, now).1.len() == 0 ==> none_like(es, EffectView::Poll)
            &&& forall|i: int|
                0 <= i < es.len() ==> #[trigger] es[i] is Send || es[i] is Poll || es[i] is Predict
        }),
{
    let (polled, middle, end) = forwarding_in_parts(s, buf, now);
    let es = polled + middle + end;
    let p = polled.len() as int;
    let n = middle.len() as int;
    assert forall|i: int| 0 <= i < es.len() implies {
        &&& i < p ==> #[trigger] es[i] is Poll
        &&& p <= i < p + n ==> es[i] is Send
        &&& i == p + n ==> es[i] is Send
        &&& i == p + n + 1 ==> es[i] is Predict
    } by {
        if i < p {
            assert(es[i] == polled[i]);
        } else if i < p + n {
            assert(es[i] == middle[i - p]);
        } else {
            assert(es[i] == end[i - p - n]);
        }
    }
}

// ---------------------------------------------------------------------------
// the local terminal

/// Whether a pane of this size cannot be the placeholder of 80 by 24.
pub open spec fn is_viewport(term: (usize, usize)) -> bool {
    term.0 > 80 || term.1 > 24
}

/// A resize has everything drawn anew. A writable session is told the new size,
/// once; a pane that only watches sends nothing, but takes control where it is
/// meant for that and was not refused. The state changes by that switch alone.
pub proof fn a_resize_is_passed_on(s: AppView, term: (usize, usize), now: u128)
    requires
        s.valid(),
        now <= LATEST,
    ensures
        ({
            let (next, es) = resizing(s, term, now);
            let promoted = s.args.always_control && s.mode == Mode::Observe && !s.control_sticky;
            &&& promoted ==> next == switching(s, Mode::Control, now).0 && goal(next)
                == Mode::Control
            &&& !promoted ==> next == s
            &&& s.session is Some && s.mode == Mode::Control ==> sent(es) == seq![
                resize_line_of(term.0 as nat, term.1 as nat),
            ]
            &&& s.session is None || s.mode == Mode::Observe ==> sent(es) == Seq::<
                Seq<char>,
            >::empty()
            &&& es.len() > 0
            &&& es[0] == EffectView::Invalidate
            &&& s.tty ==> es.last() == EffectView::Paint
            &&& promoted ==> {
                let begun = switching(s, Mode::Control, now).1;
                &&& es.subrange(1, 1 + begun.len() as int) == begun
                &&& es.len() == 1 + begun.len() + (if s.tty {
                    1int
                } else {
                    0
                })
            }
            &&& !promoted ==> es.len() == 1 + sent(es).len() + (if s.tty {
                1int
            } else {
                0
            })
        }),
{
    let (next, es) = resizing(s, term, now);
    let promoted = s.args.always_control && s.mode == Mode::Observe && !s.control_sticky;
    if s.session is Some && s.mode == Mode::Control {
        let line = EffectView::Send(resize_line_of(term.0 as nat, term.1 as nat));
        let head = seq![EffectView::Invalidate];
        let middle = seq![line];
        let end = es.skip(2);
        assert(es =~= head + middle + end);
        nothing_sent(head);
        nothing_sent(end);
        all_sent(middle, seq![line->Send_0]);
        sent_in_turn(head, middle);
        sent_in_turn(head + middle, end);
        assert(sent(es) =~= seq![line->Send_0]);
    } else {
        nothing_sent(es);
    }
    if promoted {
        let begun = switching(s, Mode::Control, now).1;
        assert(es.subrange(1, 1 + begun.len() as int) =~= begun);
    }
}

/// A pane that is meant for control and opened read-only takes control if it has
/// got a size that vouches for itself meanwhile, and otherwise says what it
/// waits for. Any other pane stays as it is.
pub proof fn settling_in_is_decided_by_the_size(s: AppView, term: (usize, usize), now: u128)
    requires
        now <= LATEST,
    ensures
        ({
            let (next, es) = settling_in(s, term, now);
            let meant = s.mode == Mode::Observe && s.args.always_control;
            &&& meant && is_viewport(term) ==> goal(next) == Mode::Control && (next, es)
                == switching(s, Mode::Control, now)
            &&& meant && !is_viewport(term) ==> {
                &&& next == (AppView { hint_clear_at: Some((now + 1_500_000_000) as u128), ..s })
                &&& once(
                    es,
                    EffectView::Status(
                        "read-only until this pane is sized — type to take control"@,
                    ),
                )
                &&& drawn_last(es, s.tty)
                &&& es.len() <= 2
            }
            &&& !meant ==> next == s && es.len() == 0
        }),
{
    a_hint_is_shown(s, "read-only until this pane is sized — type to take control"@, now);
}

/// An answer about the remote foreground is remembered; none at all changes
/// nothing. With a terminal, the mouse is reported unless a shell runs, and
/// arrows come in application mode where a full-screen program runs: what has
/// to change is written, mouse first, and nothing else is done.
pub proof fn an_answer_sets_the_terminal(s: AppView, answer: Option<bool>)
    ensures
        answer is None ==> classifying(s, answer) == (s, Seq::<EffectView>::empty()),
        answer is Some ==> {
            let (next, es) = classifying(s, answer);
            let program = answer == Some(false);
            let mouse = s.tty && s.mouse_grabbed != program;
            let arrows = s.tty && s.app_cursor_keys != program;
            &&& s.tty ==> next == (AppView {
                remote_is_shell: answer,
                mouse_grabbed: program,
                app_cursor_keys: program,
                ..s
            })
            &&& !s.tty ==> next == (AppView { remote_is_shell: answer, ..s })
            &&& mouse ==> es.len() > 0 && es[0] == EffectView::Write(
                if program {
                    "\x1b[?1002h\x1b[?1006h"@
                } else {
                    "\x1b[?1002l"@
                },
            )
            &&& arrows ==> es.len() > 0 && es.last() == EffectView::Write(
                if program {
                    "\x1b[?1h"@
                } else {
                    "\x1b[?1l"@
                },
            )
            &&& es.len() == 2 <==> mouse && arrows
            &&& es.len() == 0 <==> !mouse && !arrows
            &&& es.len() <= 2
        },
{
    if answer is Some {
        let told = AppView { remote_is_shell: answer, ..s };
        let grabbed = syncing_grab(told);
        let done = syncing_cursor(grabbed.0);
        let program = answer == Some(false);
        let shell = answer->0;
        assert(answer == Some(shell));
        assert(program == !shell);
        assert(classifying(s, answer) == (done.0, grabbed.1 + done.1));
        assert(grabbed.1.len() == 1 <==> s.tty && s.mouse_grabbed != program);
        assert(done.1.len() == 1 <==> s.tty && s.app_cursor_keys != program);
    }
}

// ---------------------------------------------------------------------------
// moments

/// Control is given back for want of input exactly where it is held, is not kept
/// always and has a limit, and the limit counts from the last input.
pub proof fn the_limit_counts_from_the_last_input(s: AppView)
    requires
        s.last_input <= LATEST,
        s.args.control_idle_secs <= u64::MAX,
    ensures
        idle_moment(s) is Some <==> s.mode == Mode::Control && s.session is Some && s.switching_to
            is None && !s.args.always_control && s.args.control_idle_secs > 0,
        idle_moment(s) is Some ==> idle_moment(s)->0 - s.last_input == s.args.control_idle_secs
            * 1_000_000_000,
{
    let secs = s.args.control_idle_secs;
    assert(secs * 1_000_000_000 <= u64::MAX * 1_000_000_000) by (nonlinear_arith)
        requires
            secs <= u64::MAX,
    ;
}

/// Whether a moment that may be set has come.
pub open spec fn has_come(at: Option<u128>, now: u128) -> bool {
    at is Some && at->0 <= now
}

/// What the timers come to: a hint that was shown long enough is not set any
/// longer; control that is held is given back at the idle moment, and may be
/// taken back by the next move; settled input is polled for. A timer whose
/// moment has not come changes nothing.
pub proof fn timers_do_what_they_were_set_for(s: AppView, idle_at: Option<u128>, now: u128)
    requires
        now <= LATEST,
    ensures
        ({
            let next = ticking(s, idle_at, now).0;
            let idle = has_come(idle_at, now) && s.mode == Mode::Control && s.switching_to is None;
            let polled = if has_come(s.settle_at, now) {
                AppView { settle_at: None, fg_poll_at: Some(now), ..s }
            } else {
                s
            };
            &&& idle ==> next == (AppView {
                control_sticky: true,
                switching_to: Some(Mode::Observe),
                switch_at: Some((now + 200_000_000) as u128),
                session: None,
                reconnect_at: None,
                hint_clear_at: Some((now + 1_500_000_000) as u128),
                ..polled
            })
            &&& !idle && has_come(s.hint_clear_at, now) ==> next == (AppView {
                hint_clear_at: None,
                ..polled
            })
            &&& !idle && !has_come(s.hint_clear_at, now) ==> next == polled
        }),
{
    let cleared = clearing_hint(s, now).0;
    let released = releasing_idle(cleared, idle_at, now).0;
    let next = polling_settled(released, now).0;
    assert(next == ticking(s, idle_at, now).0);
    let idle = has_come(idle_at, now) && s.mode == Mode::Control && s.switching_to is None;
    if idle {
        let sticky = AppView { control_sticky: true, ..cleared };
        a_switch_begins(sticky, Mode::Observe, now);
    }
}

/// What the timers do outside: the hint's place is cleared and drawn; control is
/// given back as by any other switch, and the user is told; the foreground is
/// polled. In this order, and what is not due is not done.
pub proof fn timers_act_in_turn(s: AppView, idle_at: Option<u128>, now: u128)
    requires
        now <= LATEST,
    ensures
        ({
            let es = ticking(s, idle_at, now).1;
            let hint = has_come(s.hint_clear_at, now);
            let idle = has_come(idle_at, now) && s.mode == Mode::Control && s.switching_to is None;
            let settled = has_come(s.settle_at, now);
            let clearing = if hint {
                hinting(s, Seq::empty(), now).1
            } else {
                Seq::empty()
            };
            let releasing = if idle {
                switching(s, Mode::Observe, now).1 + hinting(
                    s,
                    "control released (idle) — type to retake"@,
                    now,
                ).1
            } else {
                Seq::empty()
            };
            let asking = if settled {
                polling(s, true, now).1
            } else {
                Seq::empty()
            };
            es == clearing + releasing + asking
        }),
{
    let cleared = clearing_hint(s, now);
    let released = releasing_idle(cleared.0, idle_at, now);
    let polled = polling_settled(released.0, now);
    assert(ticking(s, idle_at, now).1 == cleared.1 + released.1 + polled.1);
    let sticky = AppView { control_sticky: true, ..cleared.0 };
    assert(switching(sticky, Mode::Observe, now).1 == switching(s, Mode::Observe, now).1);
    let text = "control released (idle) — type to retake"@;
    assert(hinting(switching(sticky, Mode::Observe, now).0, text, now).1 == hinting(
        s,
        text,
        now,
    ).1);
}

/// Guesses are taken back when their moment has come, and then drawn; before
/// that nothing is done.
pub proof fn guesses_are_taken_back(s: AppView, prediction_at: Option<u128>, now: u128)
    ensures
        !has_come(prediction_at, now) ==> expiring(s, prediction_at, now).len() == 0,
        has_come(prediction_at, now) ==> {
            let es = expiring(s, prediction_at, now);
            &&& only_at(es, 0, EffectView::ExpirePredictions)
            &&& drawn_last(es, s.tty)
            &&& es.len() <= 2
        },
{
}

/// A pane begins watching, without a session and with nothing under way or
/// waiting, whatever it was asked for; its terminal, where it has one, reports
/// the mouse.
pub proof fn a_pane_begins_with_nothing(args: ArgsView, tty: bool, now: u128)
    ensures
        ({
            let (s, es) = starting(args, tty, now);
            &&& s.args == args && s.tty == tty && s.mode == Mode::Observe
            &&& s.session is None && s.switching_to is None && s.switch_at is None
            &&& s.reconnect_at is None && s.hint_clear_at is None && s.settle_at is None
            &&& s.fg_poll_at is None && s.remote_is_shell is None
            &&& s.next_gen == 0 && s.backoff_idx == 0 && s.control_failures == 0
            &&& !s.control_sticky && s.pending_input.len() == 0 && s.last_input == now
            &&& s.mouse_grabbed == tty && !s.app_cursor_keys
            &&& !tty ==> es.len() == 0
            &&& tty ==> es.len() == 1 && es[0] is Write
        }),
{
}

// ---------------------------------------------------------------------------
// who takes control, and who gives it up

/// Whether nothing that is under way leads to control.
pub open spec fn keeps_watching(s: AppView) -> bool {
    &&& s.mode == Mode::Observe
    &&& s.switching_to != Some(Mode::Control)
    &&& s.reconnect_at is Some ==> (s.reconnect_at->0).1 == Mode::Observe
}

/// Whether an event is one that has a watching pane take control: a keystroke, a
/// wheel press after control was given up, or, where the pane is meant for
/// control, a resize or the size that it opens with.
pub open spec fn asks_for_control(s: AppView, event: Event) -> bool {
    match event {
        Event::Stdin(buf) => !holds_marker(buf) || (s.control_sticky && holds_wheel_press(
            pieces(buf, 0),
        )),
        Event::Resize(_) => s.args.always_control && !s.control_sticky,
        Event::SettleIn(term) => s.args.always_control && is_viewport(term),
        _ => false,
    }
}

/// A pane that only watches goes on watching, through failures, reconnects and
/// everything else, until something asks for control; and whenever something
/// does, control is on its way.
pub proof fn only_the_user_takes_control(s: AppView, event: Event, now: u128)
    requires
        s.valid(),
        keeps_watching(s),
        can_happen(s, event),
        names_its_mode(s, event),
        now <= LATEST,
    ensures
        asks_for_control(s, event) ==> after(s, event, now).0.switching_to == Some(Mode::Control),
        !asks_for_control(s, event) ==> keeps_watching(after(s, event, now).0),
{
    match event {
        Event::Exit { gen, mode, reason, uptime } => {},
        Event::Tick(idle_at) => {
            timers_do_what_they_were_set_for(s, idle_at, now);
        },
        Event::SwitchDue { term, failure } => {
            a_switch_is_carried_out(s, Attempt { term, failure }, now);
        },
        Event::ReconnectDue { term, failure } => {
            a_reconnect_is_carried_out(s, Attempt { term, failure }, now);
        },
        _ => {},
    }
}

/// Whether nothing that is under way leads away from control.
pub open spec fn keeps_control(s: AppView) -> bool {
    &&& s.mode == Mode::Control
    &&& s.switching_to != Some(Mode::Observe)
    &&& s.reconnect_at is Some ==> (s.reconnect_at->0).1 == Mode::Control
}

/// Whether an event is one that has control given up: the release key unless
/// control is kept always, the second quick failure in a row, or the idle
/// moment.
pub open spec fn ends_control(s: AppView, event: Event, now: u128) -> bool {
    match event {
        Event::Stdin(buf) => is_ctrl_backslash(buf) && !s.args.always_control,
        Event::Exit { gen, mode, uptime, .. } => has_session(s, gen) && is_refused(s, mode, uptime),
        Event::Tick(idle_at) => has_come(idle_at, now) && s.switching_to is None,
        _ => false,
    }
}

/// A pane in control stays there, through failures, reconnects and everything
/// else, until something ends control; and whenever something does, the pane
/// turns to watching.
pub proof fn control_is_kept_until_it_ends(s: AppView, event: Event, now: u128)
    requires
        s.valid(),
        keeps_control(s),
        can_happen(s, event),
        names_its_mode(s, event),
        now <= LATEST,
    ensures
        ends_control(s, event, now) ==> after(s, event, now).0.switching_to == Some(Mode::Observe),
        !ends_control(s, event, now) ==> keeps_control(after(s, event, now).0),
{
    match event {
        Event::Stdin(buf) => {
            if buf.len() == 1 && buf[0] == 0x1c {
                assert(buf =~= seq![0x1cu8]);
            }
        },
        Event::Tick(idle_at) => {
            timers_do_what_they_were_set_for(s, idle_at, now);
        },
        Event::SwitchDue { term, failure } => {
            a_switch_is_carried_out(s, Attempt { term, failure }, now);
        },
        Event::ReconnectDue { term, failure } => {
            a_reconnect_is_carried_out(s, Attempt { term, failure }, now);
        },
        _ => {},
    }
}

/// What a pane was started with never changes.
#[verifier::rlimit(40)]
pub proof fn arguments_stay(s: AppView, event: Event, now: u128)
    requires
        s.valid(),
        now <= LATEST,
    ensures
        after(s, event, now).0.args == s.args,
        after(s, event, now).0.tty == s.tty,
{
    if let Event::Tick(idle_at) = event {
        timers_do_what_they_were_set_for(s, idle_at, now);
    }
}

} // verus!
