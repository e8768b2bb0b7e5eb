//! The message line, whose text disappears after a while.

use crate::text::optional;
use std::time::{Duration, Instant};
use vstd::prelude::*;

verus! {

/// `std::time::Instant`, a moment of the machine's clock.
#[verifier::external_type_specification]
#[verifier::external_body]
pub struct ExInstant(Instant);

/// `Instant::now` gives the current moment, of which nothing is known.
pub assume_specification[ Instant::now ]() -> (now: Instant)
;

/// `Instant::elapsed` gives the time since `moment`. How long that is depends on
/// the clock, so nothing is claimed of it.
pub assume_specification[ Instant::elapsed ](moment: &Instant) -> (elapsed: Duration)
;

/// `Duration::as_nanos` gives `duration` as a number of nanoseconds. A duration
/// is opaque, so which number that is stays unsaid.
pub assume_specification[ Duration::as_nanos ](duration: &Duration) -> (nanoseconds: u128)
;

/// How long a message is shown, in nanoseconds.
pub const MESSAGE_LIFETIME: u128 = 5_000_000_000;

/// A message, and when it was set. Both are there, or neither is.
pub struct StatusMessage {
    pub message: Option<String>,
    pub set_time: Option<Instant>,
}

impl View for StatusMessage {
    type V = Option<Seq<char>>;

    open spec fn view(&self) -> Option<Seq<char>> {
        optional(self.message)
    }
}

/// What is left of a message that was set `age` nanoseconds ago.
pub open spec fn aged(message: Option<Seq<char>>, age: u128) -> Option<Seq<char>> {
    if age > MESSAGE_LIFETIME {
        None
    } else {
        message
    }
}

impl StatusMessage {
    /// There is a message exactly when there is a time at which it was set.
    pub open spec fn wf(&self) -> bool {
        self.message is Some <==> self.set_time is Some
    }

    /// An age that the message can be found to have: the nanoseconds of what
    /// `Instant::elapsed` gives for the moment at which it was set, or zero where
    /// there is no message.
    pub open spec fn may_have_age(&self, age: u128) -> bool {
        match self.set_time {
            Some(time) => exists|elapsed: Duration|
                #[trigger] call_ensures(Instant::elapsed, (&time,), elapsed) && call_ensures(
                    Duration::as_nanos,
                    (&elapsed,),
                    age,
                ),
            None => age == 0,
        }
    }

    /// The message was set at a moment that `Instant::now` gave.
    pub open spec fn just_set(&self) -> bool {
        self.set_time matches Some(now) && call_ensures(Instant::now, (), now)
    }

    /// A message that is set now.
    pub fn new(initial_message: String) -> (status: Self)
        ensures
            status.wf(),
            status@ == Some(initial_message@),
            status.just_set(),
    {
        StatusMessage { message: Some(initial_message), set_time: Some(Instant::now()) }
    }

    /// Replaces the message by one that is set now.
    pub fn set_message(&mut self, message: String)
        ensures
            final(self).wf(),
            final(self)@ == Some(message@),
            final(self).just_set(),
    {
        let now = Instant::now();
        self.set_message_at(message, now);
    }

    /// Replaces the message by one that is set at the given moment.
    pub fn set_message_at(&mut self, message: String, now: Instant)
        ensures
            final(self).wf(),
            final(self)@ == Some(message@),
            final(self).set_time == Some(now),
    {
        self.message = Some(message);
        self.set_time = Some(now);
    }

    /// The age of the message, in nanoseconds; zero where there is none.
    pub fn age(&self) -> (age: u128)
        ensures
            self.may_have_age(age),
    {
        match &self.set_time {
            Some(time) => {
                let elapsed = time.elapsed();
                elapsed.as_nanos()
            },
            None => 0,
        }
    }

    /// The message, if it is not too old. One that is too old is forgotten, and
    /// one that is not stays as it is.
    pub fn message(&mut self) -> (message: Option<&String>)
        requires
            old(self).wf(),
        ensures
            final(self).wf(),
            exists|age: u128|
                {
                    &&& old(self).may_have_age(age)
                    &&& final(self)@ == #[trigger] aged(old(self)@, age)
                    &&& age <= MESSAGE_LIFETIME ==> *final(self) == *old(self)
                },
            message matches Some(text) ==> final(self).message == Some(*text),
            message is None ==> final(self)@ is None,
    {
        let age = self.age();
        self.message_at(age)
    }

    /// The message, if it is not too old at the given age. One that is too old is
    /// forgotten, and one that is not stays as it is.
    pub fn message_at(&mut self, age: u128) -> (message: Option<&String>)
        requires
            old(self).wf(),
        ensures
            final(self).wf(),
            final(self)@ == aged(old(self)@, age),
            age <= MESSAGE_LIFETIME ==> *final(self) == *old(self),
            message matches Some(text) ==> final(self).message == Some(*text),
            message is None ==> final(self)@ is None,
    {
        if age > MESSAGE_LIFETIME {
            self.message = None;
            self.set_time = None;
        }
        self.message.as_ref()
    }
}

} // verus!
