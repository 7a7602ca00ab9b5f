//! The relay of a local socket into a container: when to go on accepting, and
//! when an exchange is over.

use vstd::prelude::*;

use crate::error::{err, Error};
use crate::text::{
    decimal, decimal_text, join2, join3, number_of, texts, texts_push, trim, trimmed,
    written_numbers_are_read_back,
};

verus! {

/// Who may connect to the local socket: its owner alone, because whoever can
/// connect drives the remote.
pub const SOCKET_PERMISSIONS: u32 = 0o600;

/// How many times in a row accepting may fail before the relay gives up.
pub const MAX_ACCEPT_ERRORS: u32 = 5;

/// How many milliseconds the bridge has, once an exchange is over, to say what
/// went wrong.
pub const FAULT_WAIT_MILLIS: u64 = 200;

/// How many times in a row accepting has failed.
pub struct Accepts {
    pub failures: u32,
}

/// What to do after accepting failed.
#[derive(Debug, PartialEq, Eq, Structural)]
pub enum AcceptStep {
    /// accept again after this many milliseconds
    Retry { after_millis: u64 },
    /// stop serving
    GiveUp,
}

/// What is logged when accepting failed for the `n`th time in a row.
pub open spec fn accept_log(n: nat, why: Seq<char>) -> Seq<Seq<char>> {
    let line = "relay accept failed ("@ + decimal(n) + "): "@ + why;
    if n >= MAX_ACCEPT_ERRORS {
        seq![line, "relay: giving up on accept; host will reconnect"@]
    } else {
        seq![line]
    }
}

/// What to do when accepting failed for the `n`th time in a row.
pub open spec fn accept_next(n: nat) -> AcceptStep {
    if n >= MAX_ACCEPT_ERRORS {
        AcceptStep::GiveUp
    } else {
        AcceptStep::Retry { after_millis: (200 * n) as u64 }
    }
}

/// How many failures there are in a row after an attempt to accept that succeeded
/// or did not, or at the start.
pub open spec fn row_after(failures: u32, accepted: Option<bool>) -> int {
    if accepted == Some(false) {
        failures + 1
    } else {
        0
    }
}

impl Accepts {
    /// Whether the relay still serves.
    pub open spec fn serving(&self) -> bool {
        self.failures < MAX_ACCEPT_ERRORS
    }

    /// A relay that has just begun to accept.
    pub fn new() -> (a: Accepts)
        ensures
            a.failures == row_after(0, None),
            a.serving(),
    {
        Accepts { failures: 0 }
    }

    /// A connection was accepted.
    pub fn accepted(&mut self)
        ensures
            final(self).failures == row_after(old(self).failures, Some(true)),
            final(self).serving(),
    {
        self.failures = 0;
    }

    /// Accepting failed: the lines to log, and what to do. Errors that stick
    /// are met with longer and longer pauses, and in the end by giving up, so
    /// that they never spin.
    pub fn failed(&mut self, why: &str) -> (r: (Vec<String>, AcceptStep))
        requires
            old(self).serving(),
        ensures
            final(self).failures == row_after(old(self).failures, Some(false)),
            texts(r.0@) == accept_log(final(self).failures as nat, why@),
            r.1 == accept_next(final(self).failures as nat),
            r.1 == AcceptStep::GiveUp <==> !final(self).serving(),
    {
        broadcast use texts_push;

        self.failures = self.failures + 1;
        let count = decimal_text(self.failures as u64);
        let mut line = join3("relay accept failed (", count.as_str(), "): ");
        line.append(why);
        let mut log: Vec<String> = Vec::new();
        log.push(line);
        if self.failures >= MAX_ACCEPT_ERRORS {
            log.push("relay: giving up on accept; host will reconnect".to_owned());
            assert(texts(log@) =~= accept_log(self.failures as nat, why@));
            (log, AcceptStep::GiveUp)
        } else {
            assert(texts(log@) =~= accept_log(self.failures as nat, why@));
            (log, AcceptStep::Retry { after_millis: 200 * self.failures as u64 })
        }
    }
}

/// What happens to an exchange between a client and the container.
#[derive(Debug, PartialEq, Eq, Structural)]
pub enum ExchangeEvent {
    /// the client has sent all it wants to send, or cannot be read
    ClientDone,
    /// the container has sent all it wants to send, or the client is gone
    ContainerDone,
    /// the relay is shutting down
    Stopped,
}

/// What to do with the exchange then.
#[derive(Debug, PartialEq, Eq, Structural)]
pub enum ExchangeStep {
    /// close the container's input and go on waiting for its answer
    ForwardEnd,
    /// the exchange is over
    Finish,
}

/// What to do with an exchange.
pub open spec fn exchange_next(event: ExchangeEvent) -> ExchangeStep {
    match event {
        ExchangeEvent::ClientDone => ExchangeStep::ForwardEnd,
        ExchangeEvent::ContainerDone => ExchangeStep::Finish,
        ExchangeEvent::Stopped => ExchangeStep::Finish,
    }
}

/// What to do with an exchange. A client that has sent its request half-closes,
/// and the answer is still to come: only the container's side, or the end of the
/// relay, ends the exchange.
pub fn exchange_step(event: &ExchangeEvent) -> (step: ExchangeStep)
    ensures
        step == exchange_next(*event),
{
    match event {
        ExchangeEvent::ClientDone => ExchangeStep::ForwardEnd,
        ExchangeEvent::ContainerDone => ExchangeStep::Finish,
        ExchangeEvent::Stopped => ExchangeStep::Finish,
    }
}

/// What went wrong with an exchange, if anything, by what the bridge wrote to its
/// error output.
pub open spec fn exchange_fault(stderr: Seq<char>) -> Option<Seq<char>> {
    if trimmed(stderr).len() == 0 {
        None
    } else {
        Some("relay: "@ + trimmed(stderr))
    }
}

/// How an exchange ended, by what the bridge wrote to its error output: a bridge
/// that gave up says why, and a clean end says nothing.
pub fn exchange_result(stderr: &str) -> (r: Result<(), Error>)
    ensures
        match r {
            Ok(_) => exchange_fault(stderr@) is None,
            Err(e) => exchange_fault(stderr@) == Some(e@),
        },
{
    let said = trim(stderr);
    if said.as_str().is_empty() {
        Ok(())
    } else {
        Err(err(join2("relay: ", said.as_str())))
    }
}

/// The pauses between failures grow, and the relay gives up at the fifth in a
/// row and not before.
pub proof fn failing_to_accept_backs_off(n: nat)
    requires
        1 <= n,
    ensures
        accept_next(n) == AcceptStep::GiveUp <==> n >= 5,
        n + 1 < 5 ==> accept_next(n)->after_millis < accept_next(n + 1)->after_millis,
{
}

/// The pause after a failure is a fifth of a second for each failure in the row;
/// after the fifth there is none, because the relay gives up.
pub proof fn pauses_grow_with_the_row(n: nat)
    requires
        1 <= n,
    ensures
        n < 5 ==> accept_next(n) == (AcceptStep::Retry { after_millis: (n * 200) as u64 }),
        n >= 5 ==> accept_next(n) == AcceptStep::GiveUp,
{
}

/// A row of failures begins at none, grows by one with each, and is over with
/// every connection that is accepted.
pub proof fn an_accepted_connection_ends_the_row(failures: u32)
    ensures
        row_after(failures, None) == 0,
        row_after(failures, Some(true)) == 0,
        row_after(failures, Some(false)) == failures + 1,
{
}

/// Every failure is logged, with its place in the row and its reason, and giving
/// up is logged after that.
pub proof fn failures_to_accept_are_logged(n: nat, why: Seq<char>)
    ensures
        exists|place: Seq<char>|
            number_of(place, n) == Some(n) && #[trigger] ("relay accept failed ("@ + place) + "): "@
                + why == accept_log(n, why)[0],
        n < 5 ==> accept_log(n, why).len() == 1,
        n >= 5 ==> accept_log(n, why).len() == 2 && accept_log(n, why)[1]
            == "relay: giving up on accept; host will reconnect"@,
{
    written_numbers_are_read_back(n, n);
    assert(("relay accept failed ("@ + decimal(n)) + "): "@ + why == accept_log(n, why)[0]);
}

/// An exchange goes on when the client has sent its request, and is over when the
/// container has sent its answer or the relay stops.
pub proof fn only_the_answer_ends_an_exchange(event: ExchangeEvent)
    ensures
        exchange_next(event) == ExchangeStep::Finish <==> event == ExchangeEvent::ContainerDone
            || event == ExchangeEvent::Stopped,
{
}

/// An exchange ended well exactly where the bridge had nothing to say; otherwise
/// what it said is the reason.
pub proof fn a_silent_bridge_is_a_good_one(stderr: Seq<char>)
    ensures
        exchange_fault(stderr) is None <==> trimmed(stderr).len() == 0,
        trimmed(stderr).len() > 0 ==> exchange_fault(stderr) == Some("relay: "@ + trimmed(stderr)),
{
}

} // verus!
