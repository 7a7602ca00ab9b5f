//! What holds of the pane wrapper as a whole, whatever happens to it and in
//! whatever order.

use vstd::prelude::*;

use crate::args::ArgsView;
use crate::mode::Mode;
use crate::mouse::{holds_marker, typing_is_forwarded_verbatim};
use crate::outside::encodable;
use crate::state::{
    backoff_millis, classifying, clearing_hint, connected, connecting, due_at, exiting, expiring,
    forwarding,
    heading_for, hinting, idle_moment, is_current, is_release_key, leave_text, leaving,
    next_moment, observed_size, painting, polling, polling_settled, reconnect_due, releasing_idle, rescheduling, resizing,
    sending_input, settling_in, showing, starting, stopping, switch_due, switching, ticking, typing,
    typing_read_only, wake_step, AppView, EffectView, Session, Step, WakeStage,
    FG_POLL_INTERVAL, HINT_TIME, LATEST, MILLI, QUICK_CONTROL_FAILURE, SECOND, SWITCH_GAP,
};
use crate::wire::{input_line_of, Frame};

verus! {

/// Something that happens to the wrapper.
pub enum Event {
    /// a message from session `gen`
    Frame { gen: u64, frame: Frame, text: Option<Seq<char>>, grid: (usize, usize) },
    /// session `gen` has ended
    Exit { gen: u64, mode: Mode, reason: Seq<char>, uptime: u128 },
    /// input from the local terminal
    Stdin(Seq<u8>),
    /// the answer to a poll of the remote foreground
    Foreground(Option<bool>),
    /// the local terminal was resized
    Resize((usize, usize)),
    /// the first session was asked for
    SettleIn((usize, usize)),
    /// the moment of a switch may have come; opening the session fails for the
    /// given reason, or does not
    SwitchDue { term: (usize, usize), failure: Option<Seq<char>> },
    /// the moment of a reconnect may have come
    ReconnectDue { term: (usize, usize), failure: Option<Seq<char>> },
    /// other moments may have come
    Tick(Option<u128>),
}

/// Opening a session, and what comes of it.
pub open spec fn opening(
    s: AppView,
    m: Mode,
    term: (usize, usize),
    failure: Option<Seq<char>>,
    now: u128,
) -> Step {
    let asked = connecting(s, m, term);
    let answered = match failure {
        None => connected(asked.0, now),
        Some(reason) => rescheduling(asked.0, asked.0.mode, reason, now),
    };
    (answered.0, asked.1 + answered.1)
}

/// What follows an event.
pub open spec fn after(s: AppView, event: Event, now: u128) -> Step {
    match event {
        Event::Frame { gen, frame, text, grid } => showing(s, gen, frame, text, grid),
        Event::Exit { gen, mode, reason, uptime } => exiting(s, gen, mode, reason, uptime, now),
        Event::Stdin(buf) => typing(s, buf, now),
        Event::Foreground(answer) => classifying(s, answer),
        Event::Resize(term) => resizing(s, term, now),
        Event::SettleIn(term) => settling_in(s, term, now),
        Event::SwitchDue { term, failure } => match switch_due(s, now) {
            (ready, Some(m)) => opening(ready, m, term, failure, now),
            (same, None) => (same, Seq::empty()),
        },
        Event::ReconnectDue { term, failure } => match reconnect_due(s, now) {
            (ready, Some(m)) => opening(ready, m, term, failure, now),
            (same, None) => (same, Seq::empty()),
        },
        Event::Tick(idle_at) => ticking(s, idle_at, now),
    }
}

/// Whether an event can happen: input fits into a message, and there is a number
/// left for another session.
pub open spec fn can_happen(s: AppView, event: Event) -> bool {
    match event {
        Event::Stdin(buf) => encodable(buf.len()),
        Event::SwitchDue { .. } => s.next_gen < u64::MAX,
        Event::ReconnectDue { .. } => s.next_gen < u64::MAX,
        _ => true,
    }
}

/// Whether an exit names the mode that its session was opened in.
pub open spec fn names_its_mode(s: AppView, event: Event) -> bool {
    match event {
        Event::Exit { gen, mode, .. } => is_current(s, gen) ==> mode == s.mode,
        _ => true,
    }
}

// ---------------------------------------------------------------------------
// the state

proof fn switching_keeps_valid(s: AppView, m: Mode, now: u128)
    requires
        s.valid(),
    ensures
        switching(s, m, now).0.valid(),
        s.under_way() ==> switching(s, m, now).0.under_way(),
        !heading_for(s, m) ==> switching(s, m, now).0.under_way(),
{
}

proof fn exiting_keeps_valid(
    s: AppView,
    gen: u64,
    mode: Mode,
    reason: Seq<char>,
    uptime: u128,
    now: u128,
)
    requires
        s.valid(),
    ensures
        exiting(s, gen, mode, reason, uptime, now).0.valid(),
        s.under_way() && (is_current(s, gen) ==> mode == s.mode) ==> exiting(
            s,
            gen,
            mode,
            reason,
            uptime,
            now,
        ).0.under_way(),
{
    switching_keeps_valid(
        AppView { session: None, control_failures: 0, control_sticky: true, ..s },
        Mode::Observe,
        now,
    );
}

proof fn typing_keeps_valid(s: AppView, buf: Seq<u8>, now: u128)
    requires
        s.valid(),
        encodable(buf.len()),
        now <= LATEST,
    ensures
        typing(s, buf, now).0.valid(),
        s.under_way() ==> typing(s, buf, now).0.under_way(),
{
    switching_keeps_valid(
        AppView { control_sticky: false, pending_input: s.pending_input.push(buf), ..s },
        Mode::Control,
        now,
    );
    switching_keeps_valid(AppView { control_sticky: false, ..s }, Mode::Control, now);
    switching_keeps_valid(
        AppView { last_input: now, control_sticky: false, ..s },
        Mode::Observe,
        now,
    );
}

proof fn opening_keeps_valid(
    s: AppView,
    m: Mode,
    term: (usize, usize),
    failure: Option<Seq<char>>,
    now: u128,
)
    requires
        s.valid(),
        s.switching_to is None,
        s.reconnect_at is None,
        s.next_gen < u64::MAX,
        now <= LATEST,
    ensures
        opening(s, m, term, failure, now).0.valid(),
        opening(s, m, term, failure, now).0.under_way(),
        opening(s, m, term, failure, now).0.next_gen == s.next_gen + 1,
{
}

proof fn ticking_keeps_valid(s: AppView, idle_at: Option<u128>, now: u128)
    requires
        s.valid(),
    ensures
        ticking(s, idle_at, now).0.valid(),
        s.under_way() ==> ticking(s, idle_at, now).0.under_way(),
{
    let cleared = clearing_hint(s, now).0;
    switching_keeps_valid(AppView { control_sticky: true, ..cleared }, Mode::Observe, now);
    let released = releasing_idle(cleared, idle_at, now).0;
    assert(released.valid());
    assert(polling_settled(released, now).0.valid());
}

proof fn classifying_keeps_valid(s: AppView, answer: Option<bool>)
    requires
        s.valid(),
    ensures
        classifying(s, answer).0.valid(),
        s.under_way() ==> classifying(s, answer).0.under_way(),
{
}

proof fn every_event_keeps_valid(s: AppView, event: Event, now: u128)
    requires
        s.valid(),
        can_happen(s, event),
        now <= LATEST,
    ensures
        after(s, event, now).0.valid(),
        s.under_way() && names_its_mode(s, event) ==> after(s, event, now).0.under_way(),
{
    match event {
        Event::Frame { gen, frame, text, grid } => {},
        Event::Exit { gen, mode, reason, uptime } => exiting_keeps_valid(
            s,
            gen,
            mode,
            reason,
            uptime,
            now,
        ),
        Event::Stdin(buf) => typing_keeps_valid(s, buf, now),
        Event::Foreground(answer) => classifying_keeps_valid(s, answer),
        Event::Resize(_) => switching_keeps_valid(s, Mode::Control, now),
        Event::SettleIn(_) => switching_keeps_valid(s, Mode::Control, now),
        Event::SwitchDue { term, failure } => {
            if let (ready, Some(m)) = switch_due(s, now) {
                opening_keeps_valid(ready, m, term, failure, now);
            }
        },
        Event::ReconnectDue { term, failure } => {
            if let (ready, Some(m)) = reconnect_due(s, now) {
                opening_keeps_valid(ready, m, term, failure, now);
            }
        },
        Event::Tick(idle_at) => ticking_keeps_valid(s, idle_at, now),
    }
}

/// Whatever happens, a valid state is followed by a valid state.
pub proof fn every_event_keeps_the_state_valid(s: AppView, event: Event, now: u128)
    requires
        s.valid(),
        can_happen(s, event),
        now <= LATEST,
    ensures
        after(s, event, now).0.valid(),
{
    every_event_keeps_valid(s, event, now);
}

/// Whatever happens, a pane that is connected or on its way to be stays so: it
/// never gets stuck without a session and without a moment at which it will ask
/// for one.
pub proof fn a_pane_never_gets_stuck(s: AppView, event: Event, now: u128)
    requires
        s.valid(),
        s.under_way(),
        can_happen(s, event),
        names_its_mode(s, event),
        now <= LATEST,
    ensures
        after(s, event, now).0.under_way(),
{
    every_event_keeps_valid(s, event, now);
}

// ---------------------------------------------------------------------------
// what is done outside

/// Whether an effect touches neither a running session nor a coming one, but for
/// letting the present one go.
pub open spec fn is_calm(e: EffectView) -> bool {
    e is Status || e is Paint || e is Invalidate || e is Poll || e is Stop
}

/// Whether an effect concerns the screen and the local terminal only.
pub open spec fn is_local(e: EffectView) -> bool {
    e is Status || e is Paint || e is Write || e is ResizeGrid || e is ClearGrid || e is Apply
        || e is Dump
}

/// Whether an effect only speaks to the session and shows what was typed.
pub open spec fn is_talk(e: EffectView) -> bool {
    e is Status || e is Paint || e is Invalidate || e is Poll || e is Send || e is Predict
}

spec fn all_calm(es: Seq<EffectView>) -> bool {
    forall|i: int| 0 <= i < es.len() ==> is_calm(#[trigger] es[i])
}

spec fn all_local(es: Seq<EffectView>) -> bool {
    forall|i: int| 0 <= i < es.len() ==> is_local(#[trigger] es[i])
}

spec fn all_talk(es: Seq<EffectView>) -> bool {
    forall|i: int| 0 <= i < es.len() ==> is_talk(#[trigger] es[i])
}

proof fn switching_is_calm(s: AppView, m: Mode, now: u128)
    ensures
        all_calm(switching(s, m, now).1),
{
    let es = switching(s, m, now).1;
    assert(all_calm(stopping(s)));
    assert(all_calm(painting(s)));
}

proof fn hinting_is_calm(s: AppView, text: Seq<char>, now: u128)
    ensures
        all_calm(hinting(s, text, now).1),
{
}

proof fn exiting_is_calm(
    s: AppView,
    gen: u64,
    mode: Mode,
    reason: Seq<char>,
    uptime: u128,
    now: u128,
)
    ensures
        all_calm(exiting(s, gen, mode, reason, uptime, now).1),
{
    let gone = AppView { session: None, control_failures: 0, control_sticky: true, ..s };
    switching_is_calm(gone, Mode::Observe, now);
    assert forall|t: AppView, text: Seq<char>| all_calm(#[trigger] hinting(t, text, now).1) by {
        hinting_is_calm(t, text, now);
    }
    assert forall|t: AppView, why: Seq<char>| all_calm(#[trigger] rescheduling(t, mode, why, now).1) by {}
}

proof fn typing_read_only_is_calm(s: AppView, buf: Seq<u8>, now: u128)
    ensures
        all_calm(typing_read_only(s, buf, now).1),
{
    switching_is_calm(
        AppView { control_sticky: false, pending_input: s.pending_input.push(buf), ..s },
        Mode::Control,
        now,
    );
    switching_is_calm(AppView { control_sticky: false, ..s }, Mode::Control, now);
    hinting_is_calm(s, "read-only — type to take control"@, now);
}

proof fn ticking_is_calm(s: AppView, idle_at: Option<u128>, now: u128)
    ensures
        all_calm(ticking(s, idle_at, now).1),
{
    let cleared = clearing_hint(s, now);
    assert(all_calm(cleared.1));
    let sticky = AppView { control_sticky: true, ..cleared.0 };
    switching_is_calm(sticky, Mode::Observe, now);
    let switched = switching(sticky, Mode::Observe, now);
    hinting_is_calm(switched.0, "control released (idle) — type to retake"@, now);
    let released = releasing_idle(cleared.0, idle_at, now);
    assert(all_calm(released.1));
    assert(all_calm(polling_settled(released.0, now).1));
}

/// What each event can cause outside.
proof fn effects_by_event(s: AppView, event: Event, now: u128)
    requires
        s.valid(),
    ensures
        match event {
            Event::Frame { .. } => all_local(after(s, event, now).1),
            Event::Foreground(_) => all_local(after(s, event, now).1),
            Event::Exit { .. } => all_calm(after(s, event, now).1),
            Event::SettleIn(_) => all_calm(after(s, event, now).1),
            Event::Tick(_) => all_calm(after(s, event, now).1),
            Event::Stdin(_) => all_calm(after(s, event, now).1) || (all_talk(
                after(s, event, now).1,
            ) && after(s, event, now).0.session == s.session),
            Event::Resize(_) => all_calm(after(s, event, now).1) || (all_talk(
                after(s, event, now).1,
            ) && after(s, event, now).0.session == s.session),
            _ => true,
        },
{
    match event {
        Event::Exit { gen, mode, reason, uptime } => exiting_is_calm(
            s,
            gen,
            mode,
            reason,
            uptime,
            now,
        ),
        Event::SettleIn(term) => {
            switching_is_calm(s, Mode::Control, now);
        },
        Event::Tick(idle_at) => ticking_is_calm(s, idle_at, now),
        Event::Stdin(buf) => {
            typing_read_only_is_calm(s, buf, now);
            switching_is_calm(
                AppView { last_input: now, control_sticky: false, ..s },
                Mode::Observe,
                now,
            );
            assert(all_talk(forwarding(s, buf, now).1));
        },
        Event::Resize(term) => {
            switching_is_calm(s, Mode::Control, now);
        },
        _ => {},
    }
}

proof fn opening_effects(
    s: AppView,
    m: Mode,
    term: (usize, usize),
    failure: Option<Seq<char>>,
    now: u128,
)
    requires
        s.session is None,
        s.next_gen < u64::MAX,
    ensures
        opening(s, m, term, failure, now).1.len() >= 2,
        opening(s, m, term, failure, now).1[0] is ResetPredictions,
        opening(s, m, term, failure, now).1[1] matches EffectView::Spawn { mode, gen, .. } && mode
            == m && gen == s.next_gen + 1,
        forall|i: int|
            2 <= i < opening(s, m, term, failure, now).1.len() ==> is_talk(
                #[trigger] opening(s, m, term, failure, now).1[i],
            ),
        forall|i: int|
            0 <= i < opening(s, m, term, failure, now).1.len() ==> (#[trigger] opening(
                s,
                m,
                term,
                failure,
                now,
            ).1[i] is Send ==> m == Mode::Control && failure is None),
{
    let asked = connecting(s, m, term);
    let all = opening(s, m, term, failure, now).1;
    assert(asked.1.len() == 2);
    match failure {
        None => {
            let up = connected(asked.0, now);
            assert(all_talk(up.1));
            assert(m == Mode::Observe ==> forall|i: int|
                0 <= i < up.1.len() ==> !(#[trigger] up.1[i] is Send));
            assert forall|i: int| 2 <= i < all.len() implies is_talk(#[trigger] all[i]) by {
                assert(all[i] == up.1[i - 2]);
            }
            assert forall|i: int| 0 <= i < all.len() && #[trigger] all[i] is Send implies m
                == Mode::Control by {
                if i >= 2 {
                    assert(all[i] == up.1[i - 2]);
                }
            }
        },
        Some(reason) => {
            let waiting = rescheduling(asked.0, asked.0.mode, reason, now);
            assert(all_calm(waiting.1));
            assert forall|i: int| 2 <= i < all.len() implies is_talk(#[trigger] all[i]) && !(
            all[i] is Send) by {
                assert(all[i] == waiting.1[i - 2]);
            }
        },
    }
}

/// The numbers of sessions never go back, and only a due switch or reconnect
/// takes a new one.
#[verifier::rlimit(40)]
pub proof fn session_numbers_never_go_back(s: AppView, event: Event, now: u128)
    requires
        s.valid(),
        can_happen(s, event),
    ensures
        s.next_gen <= after(s, event, now).0.next_gen,
        !(event is SwitchDue || event is ReconnectDue) ==> after(s, event, now).0.next_gen
            == s.next_gen,
{
    match event {
        Event::Tick(idle_at) => {
            let cleared = clearing_hint(s, now).0;
            let released = releasing_idle(cleared, idle_at, now).0;
            assert(released.next_gen == s.next_gen);
        },
        _ => {},
    }
}

/// A session is opened only while there is none, under a number that no session
/// had before, and only because a switch or a reconnect was due.
pub proof fn sessions_are_opened_one_at_a_time(s: AppView, event: Event, now: u128, i: int)
    requires
        s.valid(),
        can_happen(s, event),
        now <= LATEST,
        0 <= i < after(s, event, now).1.len(),
        after(s, event, now).1[i] is Spawn,
    ensures
        event is SwitchDue || event is ReconnectDue,
        s.session is None,
        after(s, event, now).1[i]->Spawn_gen == s.next_gen + 1,
        after(s, event, now).0.next_gen == s.next_gen + 1,
{
    effects_by_event(s, event, now);
    match event {
        Event::SwitchDue { term, failure } => {
            if let (ready, Some(m)) = switch_due(s, now) {
                opening_effects(ready, m, term, failure, now);
                opening_keeps_valid(ready, m, term, failure, now);
            }
        },
        Event::ReconnectDue { term, failure } => {
            if let (ready, Some(m)) = reconnect_due(s, now) {
                opening_effects(ready, m, term, failure, now);
                opening_keeps_valid(ready, m, term, failure, now);
            }
        },
        _ => {},
    }
}

/// A session that the wrapper turns away from is told to go, and is told to give
/// control back where it holds it; the one exception is a session that has
/// ended by itself. No orphan is left holding the remote terminal.
pub proof fn no_session_is_orphaned(s: AppView, event: Event, now: u128)
    requires
        s.valid(),
        can_happen(s, event),
        now <= LATEST,
        s.session is Some,
        after(s, event, now).0.session != s.session,
    ensures
        (event matches Event::Exit { gen, .. } && gen == s.session->0.gen) || after(
            s,
            event,
            now,
        ).1.contains(
            EffectView::Stop { gen: s.session->0.gen, release: s.session->0.mode == Mode::Control },
        ),
{
    let x = s.session->0;
    let stop = EffectView::Stop { gen: x.gen, release: x.mode == Mode::Control };
    let es = after(s, event, now).1;
    match event {
        Event::Stdin(buf) => {
            assert(es[0] == stop);
        },
        Event::Resize(term) => {
            assert(es[1] == stop);
        },
        Event::SettleIn(term) => {
            assert(es[0] == stop);
        },
        Event::Tick(idle_at) => {
            let cleared = clearing_hint(s, now);
            let released = releasing_idle(cleared.0, idle_at, now);
            let n = cleared.1.len() as int;
            assert(released.1[0] == stop);
            assert(es[n] == stop);
        },
        _ => {},
    }
}

/// Only a writable session is ever written to: a pane that merely watches sends
/// nothing, so it neither types at the remote nor resizes it.
pub proof fn watching_sends_nothing(s: AppView, event: Event, now: u128, i: int)
    requires
        s.valid(),
        can_happen(s, event),
        now <= LATEST,
        0 <= i < after(s, event, now).1.len(),
        after(s, event, now).1[i] is Send,
    ensures
        after(s, event, now).0.session matches Some(session) && session.mode == Mode::Control,
{
    effects_by_event(s, event, now);
    match event {
        Event::SwitchDue { term, failure } => {
            if let (ready, Some(m)) = switch_due(s, now) {
                opening_effects(ready, m, term, failure, now);
            }
        },
        Event::ReconnectDue { term, failure } => {
            if let (ready, Some(m)) = reconnect_due(s, now) {
                opening_effects(ready, m, term, failure, now);
            }
        },
        Event::Stdin(buf) => {
            typing_read_only_is_calm(s, buf, now);
        },
        _ => {},
    }
}

/// Messages of a session that is not the current one, and its end, change
/// nothing and cause nothing.
pub proof fn stale_messages_are_dropped(s: AppView, event: Event, now: u128)
    requires
        match event {
            Event::Frame { gen, .. } => !is_current(s, gen),
            Event::Exit { gen, .. } => !is_current(s, gen),
            _ => false,
        },
    ensures
        after(s, event, now) == (s, Seq::<EffectView>::empty()),
{
}

/// A switch that is under way is not begun again: the second request changes
/// nothing and causes nothing.
pub proof fn switching_twice_is_switching_once(s: AppView, m: Mode, now: u128, later: u128)
    ensures
        switching(switching(s, m, now).0, m, later) == (
            switching(s, m, now).0,
            Seq::<EffectView>::empty(),
        ),
{
}

/// However fast someone types while control is being taken, each keystroke is
/// kept, none delays the switch, and none causes anything outside.
pub proof fn typing_ahead_is_kept(s: AppView, buf: Seq<u8>, now: u128)
    requires
        s.valid(),
        s.mode == Mode::Observe,
        s.switching_to == Some(Mode::Control),
        !holds_marker(buf),
    ensures
        typing(s, buf, now) == (
            AppView { control_sticky: false, pending_input: s.pending_input.push(buf), ..s },
            Seq::<EffectView>::empty(),
        ),
{
}

/// Whatever the state, a keystroke is sent at once, or kept for the session that
/// is on its way; the one exception is the release key in a writable pane.
pub proof fn keystrokes_are_sent_or_kept(s: AppView, buf: Seq<u8>, now: u128)
    requires
        s.valid(),
        buf.len() > 0,
        !holds_marker(buf),
        is_release_key(buf) ==> s.mode == Mode::Observe || s.switching_to == Some(Mode::Observe),
    ensures
        typing(s, buf, now).0.pending_input == s.pending_input.push(buf) || (typing(
            s,
            buf,
            now,
        ).0.pending_input == s.pending_input && typing(s, buf, now).1.contains(
            EffectView::Send(input_line_of(buf)),
        )),
{
    if s.mode == Mode::Observe || s.switching_to == Some(Mode::Observe) {
    } else if s.switching_to == Some(Mode::Control) || s.session is None {
    } else {
        typing_is_forwarded_verbatim(buf, 0, s.remote_is_shell);
        assert(buf.skip(0) =~= buf);
        let es = forwarding(s, buf, now).1;
        assert(es[es.len() - 2] == EffectView::Send(input_line_of(buf)));
    }
}

/// What was kept is sent when the writable session is there: every buffer, in
/// the order in which it was typed, before anything else is said, and nothing is
/// kept any longer.
pub proof fn kept_input_is_delivered_in_order(s: AppView, now: u128, i: int)
    requires
        s.mode == Mode::Control,
        0 <= i < s.pending_input.len(),
    ensures
        connected(s, now).1[i] == EffectView::Send(input_line_of(s.pending_input[i])),
        connected(s, now).0.pending_input.len() == 0,
{
    assert(sending_input(s.pending_input)[i] == EffectView::Send(
        input_line_of(s.pending_input[i]),
    ));
}

/// The release key is never forwarded from a writable pane, whether it gives
/// control back or, where control is kept always, does nothing.
pub proof fn the_release_key_stays_here(s: AppView, buf: Seq<u8>, now: u128)
    requires
        s.valid(),
        s.mode == Mode::Control,
        s.switching_to != Some(Mode::Observe),
        is_release_key(buf),
    ensures
        typing(s, buf, now).0.pending_input == s.pending_input,
        forall|i: int|
            0 <= i < typing(s, buf, now).1.len() ==> !(#[trigger] typing(s, buf, now).1[i] is Send),
        s.args.always_control ==> typing(s, buf, now).1.len() == 0,
        !s.args.always_control ==> typing(s, buf, now).0.switching_to == Some(Mode::Observe),
{
    switching_is_calm(
        AppView { last_input: now, control_sticky: false, ..s },
        Mode::Observe,
        now,
    );
}

/// Someone who only looks, and turns the wheel, does not take control: mouse
/// input leaves a read-only pane read-only, unless control was given up before
/// without the user's doing.
pub proof fn a_glance_does_not_take_control(s: AppView, buf: Seq<u8>, now: u128)
    requires
        s.valid(),
        s.mode == Mode::Observe || s.switching_to == Some(Mode::Observe),
        holds_marker(buf),
        !s.control_sticky,
    ensures
        typing(s, buf, now).0.switching_to == s.switching_to,
        typing(s, buf, now).0.mode == s.mode,
        typing(s, buf, now).0.session == s.session,
        typing(s, buf, now).0.pending_input == s.pending_input,
{
}

/// The second writable session in a row that fails quickly is given up for a
/// read-only one.
pub proof fn refused_control_falls_back_to_watching(
    s: AppView,
    reason: Seq<char>,
    uptime: u128,
    now: u128,
)
    requires
        s.valid(),
        s.session is Some,
        s.mode == Mode::Control,
        s.control_failures == 1,
        uptime < QUICK_CONTROL_FAILURE,
    ensures
        exiting(s, s.session->0.gen, Mode::Control, reason, uptime, now).0.switching_to == Some(
            Mode::Observe,
        ),
        exiting(s, s.session->0.gen, Mode::Control, reason, uptime, now).0.control_sticky,
        exiting(s, s.session->0.gen, Mode::Control, reason, uptime, now).0.control_failures == 0,
{
}

/// Once control was refused or given up, dragging the window does not ask for it
/// again: a resize leaves the state as it is.
pub proof fn dragging_the_window_asks_for_nothing(s: AppView, term: (usize, usize), now: u128)
    requires
        s.control_sticky,
    ensures
        resizing(s, term, now).0 == s,
{
}

/// A pane that keeps control always, or has no idle limit, is never released for
/// want of input: no such moment is set, and without one the wrapper never
/// turns away from control by itself.
pub proof fn control_is_kept_where_asked_for(s: AppView, now: u128)
    requires
        s.args.always_control || s.args.control_idle_secs == 0,
    ensures
        idle_moment(s) is None,
        ticking(s, idle_moment(s), now).0.mode == s.mode,
        ticking(s, idle_moment(s), now).0.switching_to == s.switching_to,
        ticking(s, idle_moment(s), now).0.session == s.session,
{
}

/// Control that nothing was typed into for as long as the limit says is given
/// back, and the user's next move may take it again.
pub proof fn idle_control_is_released(s: AppView, now: u128)
    requires
        s.valid(),
        idle_moment(s) is Some,
        idle_moment(s)->0 <= now,
    ensures
        ticking(s, idle_moment(s), now).0.switching_to == Some(Mode::Observe),
        ticking(s, idle_moment(s), now).0.control_sticky,
{
    let cleared = clearing_hint(s, now).0;
    let released = releasing_idle(cleared, idle_moment(s), now).0;
    assert(released.switching_to == Some(Mode::Observe));
}

/// Every input into a writable session puts the release off by the whole limit.
pub proof fn input_puts_the_release_off(s: AppView, buf: Seq<u8>, now: u128)
    requires
        s.valid(),
        idle_moment(s) is Some,
        !is_release_key(buf),
        now <= LATEST,
        s.args.control_idle_secs <= u64::MAX,
    ensures
        idle_moment(typing(s, buf, now).0) is Some,
        idle_moment(typing(s, buf, now).0)->0 == now + s.args.control_idle_secs * SECOND,
{
    assert(s.args.control_idle_secs * SECOND <= u64::MAX * SECOND) by (nonlinear_arith)
        requires
            s.args.control_idle_secs <= u64::MAX,
    ;
}

/// The size that a read-only session asks for is never below the one that the
/// command line gives, and where that one is not fixed it is never below the
/// local terminal either.
pub proof fn the_request_covers_the_pane(s: AppView, term: (usize, usize))
    ensures
        observed_size(s, term).0 >= s.args.cols,
        observed_size(s, term).1 >= s.args.rows,
        s.args.size_fixed ==> observed_size(s, term) == (s.args.cols, s.args.rows),
        s.tty && !s.args.size_fixed ==> observed_size(s, term).0 >= term.0 && observed_size(
            s,
            term,
        ).1 >= term.1,
{
}

/// Waiting for a reconnect never gets shorter from one failure to the next, and
/// never takes more than ten seconds.
pub proof fn reconnects_back_off(n: nat)
    ensures
        1000 <= backoff_millis(n) <= backoff_millis(n + 1) <= 10000,
{
}

/// A reconnect is set for the waiting time from now, and the next one waits as
/// long as the row of failures says.
pub proof fn each_failure_waits_longer(s: AppView, m: Mode, reason: Seq<char>, now: u128)
    requires
        s.backoff_idx < usize::MAX,
        now <= LATEST,
    ensures
        rescheduling(s, m, reason, now).0.reconnect_at == Some(
            ((now + backoff_millis(s.backoff_idx as nat) * MILLI) as u128, m),
        ),
        rescheduling(s, m, reason, now).0.backoff_idx == s.backoff_idx + 1,
{
}

/// Two polls of the remote foreground that nobody forces are never closer
/// together than the interval.
pub proof fn polls_keep_their_distance(s: AppView, now: u128)
    requires
        polling(s, false, now).1.len() > 0,
        s.fg_poll_at is Some,
    ensures
        now - s.fg_poll_at->0 >= FG_POLL_INTERVAL,
        polling(s, false, now).0.fg_poll_at == Some(now),
{
}

/// Whether `t` is one of the moments at which something is due.
pub open spec fn is_set(
    s: AppView,
    idle_at: Option<u128>,
    prediction_at: Option<u128>,
    t: u128,
) -> bool {
    ||| s.switch_at == Some(t)
    ||| (s.reconnect_at matches Some((at, _)) && at == t)
    ||| s.hint_clear_at == Some(t)
    ||| idle_at == Some(t)
    ||| prediction_at == Some(t)
    ||| s.settle_at == Some(t)
}

/// The wrapper sleeps until the earliest moment that is set, and forever only
/// where none is.
pub proof fn the_earliest_moment_is_next(
    s: AppView,
    idle_at: Option<u128>,
    prediction_at: Option<u128>,
)
    ensures
        match next_moment(s, idle_at, prediction_at) {
            Some(t) => is_set(s, idle_at, prediction_at, t) && forall|u: u128|
                is_set(s, idle_at, prediction_at, u) ==> t <= u,
            None => forall|u: u128| !is_set(s, idle_at, prediction_at, u),
        },
{
}

spec fn all_silent(es: Seq<EffectView>) -> bool {
    forall|i: int| 0 <= i < es.len() ==> !(#[trigger] es[i] is Paint) && !(es[i] is Write)
}

proof fn switching_is_silent(s: AppView, m: Mode, now: u128)
    requires
        !s.tty,
    ensures
        all_silent(switching(s, m, now).1),
        !switching(s, m, now).0.tty,
{
    assert(painting(s).len() == 0);
}

proof fn exiting_is_silent(
    s: AppView,
    gen: u64,
    mode: Mode,
    reason: Seq<char>,
    uptime: u128,
    now: u128,
)
    requires
        !s.tty,
    ensures
        all_silent(exiting(s, gen, mode, reason, uptime, now).1),
{
    let gone = AppView { session: None, control_failures: 0, control_sticky: true, ..s };
    switching_is_silent(gone, Mode::Observe, now);
    assert forall|t: AppView, text: Seq<char>| !t.tty implies all_silent(
        #[trigger] hinting(t, text, now).1,
    ) by {}
    assert forall|t: AppView, why: Seq<char>| !t.tty implies all_silent(
        #[trigger] rescheduling(t, mode, why, now).1,
    ) by {}
}

proof fn typing_is_silent(s: AppView, buf: Seq<u8>, now: u128)
    requires
        !s.tty,
    ensures
        all_silent(typing(s, buf, now).1),
{
    switching_is_silent(
        AppView { control_sticky: false, pending_input: s.pending_input.push(buf), ..s },
        Mode::Control,
        now,
    );
    switching_is_silent(AppView { control_sticky: false, ..s }, Mode::Control, now);
    switching_is_silent(
        AppView { last_input: now, control_sticky: false, ..s },
        Mode::Observe,
        now,
    );
    assert(all_silent(hinting(s, "read-only — type to take control"@, now).1));
    assert(all_silent(forwarding(s, buf, now).1));
}

proof fn opening_is_silent(
    s: AppView,
    m: Mode,
    term: (usize, usize),
    failure: Option<Seq<char>>,
    now: u128,
)
    requires
        !s.tty,
    ensures
        all_silent(opening(s, m, term, failure, now).1),
{
    let asked = connecting(s, m, term);
    assert(all_silent(asked.1));
    match failure {
        None => assert(all_silent(connected(asked.0, now).1)),
        Some(reason) => assert(all_silent(rescheduling(asked.0, asked.0.mode, reason, now).1)),
    }
}

proof fn ticking_is_silent(s: AppView, idle_at: Option<u128>, now: u128)
    requires
        !s.tty,
    ensures
        all_silent(ticking(s, idle_at, now).1),
{
    let cleared = clearing_hint(s, now);
    assert(all_silent(cleared.1));
    let sticky = AppView { control_sticky: true, ..cleared.0 };
    switching_is_silent(sticky, Mode::Observe, now);
    let released = releasing_idle(cleared.0, idle_at, now);
    assert(all_silent(released.1));
    assert(all_silent(polling_settled(released.0, now).1));
}

/// Without a terminal nothing is drawn and nothing is written to one.
pub proof fn without_a_terminal_nothing_is_drawn(s: AppView, event: Event, now: u128, i: int)
    requires
        !s.tty,
        0 <= i < after(s, event, now).1.len(),
    ensures
        !(after(s, event, now).1[i] is Paint),
        !(after(s, event, now).1[i] is Write),
{
    match event {
        Event::Exit { gen, mode, reason, uptime } => exiting_is_silent(
            s,
            gen,
            mode,
            reason,
            uptime,
            now,
        ),
        Event::Stdin(buf) => typing_is_silent(s, buf, now),
        Event::Resize(_) => switching_is_silent(s, Mode::Control, now),
        Event::SettleIn(_) => switching_is_silent(s, Mode::Control, now),
        Event::SwitchDue { term, failure } => {
            if let (ready, Some(m)) = switch_due(s, now) {
                opening_is_silent(ready, m, term, failure, now);
            }
        },
        Event::ReconnectDue { term, failure } => {
            if let (ready, Some(m)) = reconnect_due(s, now) {
                opening_is_silent(ready, m, term, failure, now);
            }
        },
        Event::Tick(idle_at) => ticking_is_silent(s, idle_at, now),
        _ => {},
    }
}

/// The local terminal follows the remote foreground: where a shell is known to
/// run, the mouse is the terminal's own; where a full-screen program is, the
/// mouse is reported and arrows come in application mode.
pub proof fn terminal_modes_follow_the_foreground(s: AppView, shell: bool)
    requires
        s.valid(),
        s.tty,
    ensures
        classifying(s, Some(shell)).0.mouse_grabbed == !shell,
        classifying(s, Some(shell)).0.app_cursor_keys == !shell,
{
}

/// What is learnt twice is written once: an answer that changes nothing causes
/// nothing.
pub proof fn terminal_modes_are_written_on_change_only(s: AppView)
    requires
        s.valid(),
    ensures
        classifying(s, s.remote_is_shell) == (s, Seq::<EffectView>::empty()),
{
    assert(classifying(s, s.remote_is_shell).1 =~= Seq::<EffectView>::empty());
}

/// A frame of the current session with output in it starts the waiting times
/// over, whatever the output is.
pub proof fn a_frame_starts_the_waiting_over(
    s: AppView,
    gen: u64,
    frame: Frame,
    text: Option<Seq<char>>,
    grid: (usize, usize),
)
    requires
        is_current(s, gen),
        frame.kind@ == "terminal.frame"@,
        frame.bytes is Some,
    ensures
        showing(s, gen, frame, text, grid).0 == (AppView { backoff_idx: 0, ..s }),
{
    reveal_strlit("terminal.frame");
    reveal_strlit("terminal.closed");
    assert("terminal.frame"@[9] != "terminal.closed"@[9]);
}

/// A keystroke in a pane that only watches takes control and is delivered: when
/// the switch that it begins is due and its session comes, that session is
/// writable, and the keystroke is sent behind what was kept before it.
pub proof fn a_keystroke_takes_control(
    s: AppView,
    buf: Seq<u8>,
    now: u128,
    later: u128,
    term: (usize, usize),
)
    requires
        s.valid(),
        s.mode == Mode::Observe,
        s.switching_to is None,
        !holds_marker(buf),
        s.next_gen < u64::MAX,
        now <= LATEST,
        now + SWITCH_GAP <= later,
    ensures
        ({
            let typed = typing(s, buf, now).0;
            let came = after(typed, Event::SwitchDue { term, failure: None }, later);
            &&& came.0.session == Some(
                Session { gen: (s.next_gen + 1) as u64, mode: Mode::Control },
            )
            &&& came.0.pending_input.len() == 0
            &&& came.1[2 + s.pending_input.len() as int] == EffectView::Send(input_line_of(buf))
        }),
{
    let typed = typing(s, buf, now).0;
    let ready = switch_due(typed, later).0;
    let asked = connecting(ready, Mode::Control, term);
    let n = s.pending_input.len() as int;
    assert(asked.1.len() == 2);
    assert(typed.pending_input[n] == buf);
    kept_input_is_delivered_in_order(asked.0, later, n);
}

/// The release key gives control back: when the switch that it begins is due and
/// its session comes, that session only watches.
pub proof fn the_release_key_returns_to_watching(
    s: AppView,
    buf: Seq<u8>,
    now: u128,
    later: u128,
    term: (usize, usize),
)
    requires
        s.valid(),
        s.mode == Mode::Control,
        s.switching_to is None,
        !s.args.always_control,
        is_release_key(buf),
        s.next_gen < u64::MAX,
        now <= LATEST,
        now + SWITCH_GAP <= later,
    ensures
        after(
            typing(s, buf, now).0,
            Event::SwitchDue { term, failure: None },
            later,
        ).0.session == Some(Session { gen: (s.next_gen + 1) as u64, mode: Mode::Observe }),
{
}

/// A pane that is meant for control and waits read-only for its size takes
/// control at the first resize.
pub proof fn the_first_resize_takes_control(s: AppView, term: (usize, usize), now: u128)
    requires
        s.args.always_control,
        s.mode == Mode::Observe,
        s.switching_to is None,
        !s.control_sticky,
    ensures
        resizing(s, term, now).0.switching_to == Some(Mode::Control),
{
}

/// Input while the pane waits for a reconnect is kept and hurries it: the
/// reconnect is due at once.
pub proof fn typing_hurries_the_reconnect(s: AppView, buf: Seq<u8>, now: u128)
    requires
        s.valid(),
        s.mode == Mode::Control,
        s.reconnect_at is Some,
        !is_release_key(buf),
    ensures
        reconnect_due(typing(s, buf, now).0, now).1 == Some((s.reconnect_at->0).1),
        typing(s, buf, now).0.pending_input == s.pending_input.push(buf),
{
}

/// The session that was let go has time to go: the one that follows it is not
/// opened before the gap is over.
pub proof fn sessions_keep_their_distance(s: AppView, m: Mode, now: u128, later: u128)
    requires
        !heading_for(s, m),
        now <= LATEST,
        later < now + SWITCH_GAP,
    ensures
        switch_due(switching(s, m, now).0, later).1 is None,
        switch_due(switching(s, m, now).0, (now + SWITCH_GAP) as u128).1 == Some(m),
{
}

/// A hint stays for its time and then goes away.
pub proof fn hints_go_away(s: AppView, text: Seq<char>, now: u128, later: u128)
    requires
        now <= LATEST,
    ensures
        later < now + HINT_TIME ==> clearing_hint(hinting(s, text, now).0, later) == (
            hinting(s, text, now).0,
            Seq::<EffectView>::empty(),
        ),
        later >= now + HINT_TIME ==> {
            &&& clearing_hint(hinting(s, text, now).0, later).0.hint_clear_at is None
            &&& clearing_hint(hinting(s, text, now).0, later).1[0] == EffectView::Status(
                Seq::empty(),
            )
        },
{
}

/// When the wrapper ends it lets its session go, and gives control back where it
/// holds it; a terminal that was taken over is put back last.
pub proof fn leaving_lets_everything_go(s: AppView)
    ensures
        leaving(s).0.session is None,
        s.session matches Some(session) ==> leaving(s).1[0] == (EffectView::Finish {
            gen: session.gen,
            release: session.mode == Mode::Control,
        }),
        leaving(s).0 == (AppView { session: None, ..s }),
        leaving(s).1.len() == (if s.session is Some {
            1int
        } else {
            0
        }) + (if s.tty {
            1int
        } else {
            0
        }),
        s.tty ==> leaving(s).1.last() == EffectView::Write(leave_text()),
        !s.tty ==> forall|i: int|
            0 <= i < leaving(s).1.len() ==> !(#[trigger] leaving(s).1[i] is Write),
{
}

/// An attempt at a session: the size of the local terminal then, and why the
/// session could not be opened, if it could not.
pub struct Attempt {
    pub term: (usize, usize),
    pub failure: Option<Seq<char>>,
}

/// All that is due at a moment, in its order: a switch, a reconnect, the other
/// timers, and guesses last.
pub open spec fn waking(
    s: AppView,
    first: Attempt,
    second: Attempt,
    idle_at: Option<u128>,
    prediction_at: Option<u128>,
    now: u128,
) -> Step {
    let switched = after(
        s,
        Event::SwitchDue { term: first.term, failure: first.failure },
        now,
    );
    let reconnected = after(
        switched.0,
        Event::ReconnectDue { term: second.term, failure: second.failure },
        now,
    );
    let ticked = after(reconnected.0, Event::Tick(idle_at), now);
    let expired = expiring(ticked.0, prediction_at, now);
    (ticked.0, switched.1 + reconnected.1 + ticked.1 + expired)
}

/// What a stage that may ask for a session comes to, once there is an answer.
pub open spec fn answered(
    s: AppView,
    stage: WakeStage,
    attempt: Attempt,
    now: u128,
) -> Step {
    let asked = wake_step(s, stage, attempt.term, None, None, now).0;
    if due_at(s, stage, now) is None {
        asked
    } else {
        let answer = match attempt.failure {
            None => connected(asked.0, now),
            Some(reason) => rescheduling(asked.0, asked.0.mode, reason, now),
        };
        (answer.0, asked.1 + answer.1)
    }
}

proof fn a_switch_is_answered(s: AppView, attempt: Attempt, now: u128)
    ensures
        answered(s, WakeStage::Switch, attempt, now) == after(
            s,
            Event::SwitchDue { term: attempt.term, failure: attempt.failure },
            now,
        ),
{
}

proof fn a_reconnect_is_answered(s: AppView, attempt: Attempt, now: u128)
    ensures
        answered(s, WakeStage::Reconnect, attempt, now) == after(
            s,
            Event::ReconnectDue { term: attempt.term, failure: attempt.failure },
            now,
        ),
{
}

/// Doing the stages one after the other, each with the answer that it asks for,
/// is doing all that is due, in its order.
pub proof fn stages_make_up_the_waking(
    s: AppView,
    first: Attempt,
    second: Attempt,
    idle_at: Option<u128>,
    prediction_at: Option<u128>,
    now: u128,
)
    ensures
        ({
            let a = answered(s, WakeStage::Switch, first, now);
            let b = answered(a.0, WakeStage::Reconnect, second, now);
            let c = wake_step(b.0, WakeStage::Timers, second.term, idle_at, prediction_at, now);
            let d = wake_step(c.0.0, WakeStage::Guesses, second.term, idle_at, prediction_at, now);
            &&& waking(s, first, second, idle_at, prediction_at, now) == (
                d.0.0,
                a.1 + b.1 + c.0.1 + d.0.1,
            )
            &&& wake_step(s, WakeStage::Switch, first.term, idle_at, prediction_at, now).1
                == WakeStage::Reconnect
            &&& wake_step(a.0, WakeStage::Reconnect, second.term, idle_at, prediction_at, now).1
                == WakeStage::Timers
            &&& c.1 == WakeStage::Guesses
            &&& d.1 == WakeStage::Done
        }),
{
    let a = answered(s, WakeStage::Switch, first, now);
    let b = answered(a.0, WakeStage::Reconnect, second, now);
    a_switch_is_answered(s, first, now);
    a_reconnect_is_answered(a.0, second, now);
    let c = wake_step(b.0, WakeStage::Timers, second.term, idle_at, prediction_at, now);
    let d = wake_step(c.0.0, WakeStage::Guesses, second.term, idle_at, prediction_at, now);
    assert(d.0.0 == c.0.0);
}

/// A session that came of a switch, or failed to, leaves no reconnect to be done
/// at the same moment.
proof fn a_switch_leaves_no_reconnect(s: AppView, first: Attempt, now: u128)
    requires
        s.valid(),
        switch_due(s, now).1 is Some,
        s.next_gen < u64::MAX,
        now <= LATEST,
    ensures
        ({
            let switched = after(
                s,
                Event::SwitchDue { term: first.term, failure: first.failure },
                now,
            ).0;
            &&& reconnect_due(switched, now) == (switched, None::<Mode>)
            &&& switched.next_gen == s.next_gen + 1
        }),
{
    let (ready, m) = switch_due(s, now);
    opening_keeps_valid(ready, m->0, first.term, first.failure, now);
}

/// Whatever is due at a moment, doing all of it keeps the state valid and the
/// pane connected or on its way to be, and opens one session at the most.
pub proof fn waking_keeps_the_state_valid(
    s: AppView,
    first: Attempt,
    second: Attempt,
    idle_at: Option<u128>,
    prediction_at: Option<u128>,
    now: u128,
)
    requires
        s.valid(),
        s.next_gen < u64::MAX,
        now <= LATEST,
    ensures
        waking(s, first, second, idle_at, prediction_at, now).0.valid(),
        s.under_way() ==> waking(s, first, second, idle_at, prediction_at, now).0.under_way(),
        s.next_gen <= waking(s, first, second, idle_at, prediction_at, now).0.next_gen
            <= s.next_gen + 1,
{
    let switch = Event::SwitchDue { term: first.term, failure: first.failure };
    let reconnect = Event::ReconnectDue { term: second.term, failure: second.failure };
    let switched = after(s, switch, now).0;
    let reconnected = after(switched, reconnect, now).0;
    every_event_keeps_valid(s, switch, now);
    if switch_due(s, now).1 is Some {
        a_switch_leaves_no_reconnect(s, first, now);
    } else {
        every_event_keeps_valid(switched, reconnect, now);
        if let (ready, Some(m)) = reconnect_due(switched, now) {
            opening_keeps_valid(ready, m, second.term, second.failure, now);
        }
    }
    every_event_keeps_valid(reconnected, Event::Tick(idle_at), now);
    session_numbers_never_go_back(reconnected, Event::Tick(idle_at), now);
}

/// Where a series of events, each with its moment, leads.
pub open spec fn led_to(s: AppView, events: Seq<(Event, u128)>) -> AppView
    decreases events.len(),
{
    if events.len() == 0 {
        s
    } else {
        after(led_to(s, events.drop_last()), events.last().0, events.last().1).0
    }
}

/// Whether a series of events can happen.
pub open spec fn can_all_happen(s: AppView, events: Seq<(Event, u128)>) -> bool
    decreases events.len(),
{
    events.len() > 0 ==> {
        &&& can_all_happen(s, events.drop_last())
        &&& can_happen(led_to(s, events.drop_last()), events.last().0)
        &&& names_its_mode(led_to(s, events.drop_last()), events.last().0)
        &&& events.last().1 <= LATEST
    }
}

/// Whatever happens from the first session on, and however much of it, the
/// state is valid and the pane is connected or on its way to be.
pub proof fn every_reachable_state_is_valid(
    args: ArgsView,
    tty: bool,
    begun: u128,
    m: Mode,
    term: (usize, usize),
    failure: Option<Seq<char>>,
    now: u128,
    events: Seq<(Event, u128)>,
)
    requires
        begun <= LATEST,
        now <= LATEST,
        can_all_happen(opening(starting(args, tty, begun).0, m, term, failure, now).0, events),
    ensures
        led_to(opening(starting(args, tty, begun).0, m, term, failure, now).0, events).valid(),
        led_to(opening(starting(args, tty, begun).0, m, term, failure, now).0, events).under_way(),
    decreases events.len(),
{
    let first = starting(args, tty, begun).0;
    let opened = opening(first, m, term, failure, now).0;
    if events.len() == 0 {
        opening_keeps_valid(first, m, term, failure, now);
    } else {
        every_reachable_state_is_valid(
            args,
            tty,
            begun,
            m,
            term,
            failure,
            now,
            events.drop_last(),
        );
        every_event_keeps_valid(
            led_to(opened, events.drop_last()),
            events.last().0,
            events.last().1,
        );
    }
}

} // verus!
