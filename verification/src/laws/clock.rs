//! Laws of a message and its clock.

use crate::status::StatusMessage;
use std::time::{Duration, Instant};
use vstd::prelude::*;

verus! {

/// The age of a message is the number of nanoseconds in the time that the clock
/// finds to have passed since the message was set. Without a message it is zero.
pub proof fn law_age_is_time_since_message_was_set(status: StatusMessage, age: u128)
    ensures
        status.set_time is None ==> (status.may_have_age(age) <==> age == 0),
        status.set_time matches Some(moment) ==> (status.may_have_age(age) <==> exists|
            passed: Duration,
        | #[trigger]
            call_ensures(Instant::elapsed, (&moment,), passed) && call_ensures(
                Duration::as_nanos,
                (&passed,),
                age,
            )),
{
}

/// A message that was just set was set at a moment that the clock gave.
pub proof fn law_just_set_means_now(status: StatusMessage)
    ensures
        status.just_set() <==> (status.set_time matches Some(moment) && call_ensures(
            Instant::now,
            (),
            moment,
        )),
{
}

/// A message and the moment at which it was set come and go together.
pub proof fn law_message_has_time(status: StatusMessage)
    ensures
        status.wf() <==> (status.message is None <==> status.set_time is None),
        status@ is None <==> status.message is None,
        status.message matches Some(text) ==> status@ == Some(text@),
{
}

} // verus!
