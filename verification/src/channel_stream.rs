//! A pollable stream over a standard channel receiver, with an optional
//! second receiver whose first signal — or disconnection — ends the
//! stream.

use vstd::prelude::*;
use vstd::std_specs::convert::FromSpec;
use std::sync::mpsc::Receiver;
use std::sync::mpsc::TryRecvError;

verus! {

/// std's channel receiver, opaque to the verifier.
#[verifier::external_type_specification]
#[verifier::external_body]
#[verifier::reject_recursive_types(T)]
pub struct ExReceiver<T>(Receiver<T>);

/// What one non-blocking look at a channel found.
pub enum RecvAttempt<T> {
    Got(T),
    Empty,
    Closed,
}

/// Relies on mpsc::Receiver::try_recv: hands out a queued value if one
/// is pending and otherwise reports the channel empty or disconnected.
/// Which of the three happens depends on the sending side, so nothing
/// more is promised of the outcome.
#[verifier::external_body]
fn try_recv_now<T>(r: &Receiver<T>) -> RecvAttempt<T> {
    match r.try_recv() {
        Ok(v) => RecvAttempt::Got(v),
        Err(TryRecvError::Empty) => RecvAttempt::Empty,
        Err(TryRecvError::Disconnected) => RecvAttempt::Closed,
    }
}

/// What one poll of the stream decides.
pub enum PollOutcome<T> {
    Yield(T),
    Finished,
    Wait,
}

/// A stream of the values of one channel that ends as soon as a paired
/// shutdown channel signals or either channel disconnects.
#[verifier::reject_recursive_types(T)]
pub struct ChannelStream<T> {
    chan: Receiver<T>,
    done: Option<Receiver<()>>,
}

impl<T> ChannelStream<T> {
    /// The data channel this stream polls.
    pub closed spec fn spec_chan(&self) -> Receiver<T> {
        self.chan
    }

    /// The optional shutdown channel.
    pub closed spec fn spec_done(&self) -> Option<Receiver<()>> {
        self.done
    }

    /// The same stream, now also watching `done` for shutdown.
    pub fn with_done(self, done: Receiver<()>) -> (r: ChannelStream<T>)
        ensures
            r.spec_chan() == self.spec_chan(),
            r.spec_done() == Some(done),
    {
        ChannelStream { chan: self.chan, done: Some(done) }
    }

    /// One non-blocking poll: finish when the shutdown channel signals
    /// or either channel is gone, yield a queued value, otherwise wait.
    pub fn poll_step(&self) -> PollOutcome<T> {
        match &self.done {
            Some(done) => {
                match try_recv_now(done) {
                    RecvAttempt::Empty => {},
                    _ => {
                        return PollOutcome::Finished;
                    },
                }
            },
            None => {},
        }
        match try_recv_now(&self.chan) {
            RecvAttempt::Empty => PollOutcome::Wait,
            RecvAttempt::Closed => PollOutcome::Finished,
            RecvAttempt::Got(data) => PollOutcome::Yield(data),
        }
    }
}

impl<T> vstd::std_specs::convert::FromSpecImpl<Receiver<T>> for ChannelStream<T> {
    closed spec fn obeys_from_spec() -> bool {
        true
    }

    closed spec fn from_spec(chan: Receiver<T>) -> ChannelStream<T> {
        ChannelStream { chan, done: None }
    }
}

impl<T> From<Receiver<T>> for ChannelStream<T> {
    fn from(chan: Receiver<T>) -> (r: ChannelStream<T>) {
        ChannelStream { chan, done: None }
    }
}

/// What conversion from a bare receiver yields: a stream over that
/// receiver with no shutdown channel attached.
pub proof fn lemma_from_receiver<T>(chan: Receiver<T>)
    ensures
        <ChannelStream<T> as FromSpec<Receiver<T>>>::from_spec(chan).spec_chan() == chan,
        <ChannelStream<T> as FromSpec<Receiver<T>>>::from_spec(chan).spec_done() is None,
        <ChannelStream<T> as FromSpec<Receiver<T>>>::obeys_from_spec(),
{
}

} // verus!
