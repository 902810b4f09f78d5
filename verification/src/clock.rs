//! Points in time.

use vstd::prelude::*;
use vstd::string::*;

use crate::outside::{clock_millis, rfc3339_text, rfc3339_text_of, LAST_MILLIS};

verus! {

/// A point in time between 1970 and the end of the calendar, with its text in
/// the format of RFC 3339.
#[derive(Debug)]
pub struct Moment {
    millis: i64,
    text: String,
}

impl Moment {
    #[verifier::type_invariant]
    spec fn wf(self) -> bool {
        0 <= self.millis <= LAST_MILLIS && self.text@ == rfc3339_text_of(self.millis as int)
    }

    /// The milliseconds since 1970.
    pub closed spec fn at(self) -> int {
        self.millis as int
    }

    /// The point in time that the clock shows. Nothing is said of it but that
    /// it is one.
    pub fn now() -> (r: Moment)
        ensures
            0 <= r.at() <= LAST_MILLIS,
    {
        let millis = clock_millis();
        Moment { millis, text: rfc3339_text(millis) }
    }

    /// The point in time so many milliseconds after the beginning of 1970,
    /// where the calendar has it.
    pub fn after_millis(millis: i64) -> (r: Option<Moment>)
        ensures
            match r {
                Some(moment) => moment.at() == millis,
                None => !(0 <= millis <= LAST_MILLIS),
            },
    {
        if 0 <= millis && millis <= LAST_MILLIS {
            Some(Moment { millis, text: rfc3339_text(millis) })
        } else {
            None
        }
    }

    /// The milliseconds since 1970.
    pub fn millis(&self) -> (r: i64)
        ensures
            r == self.at(),
            0 <= r <= LAST_MILLIS,
    {
        proof {
            use_type_invariant(self);
        }
        self.millis
    }

    /// The text of the point in time, in the format of RFC 3339.
    pub fn text(&self) -> (r: String)
        ensures
            r@ == rfc3339_text_of(self.at()),
    {
        proof {
            use_type_invariant(self);
        }
        self.text.clone()
    }
}

} // verus!
