//! Points in time of a given clock, as nanoseconds since its origin.
use vstd::prelude::*;
use core::marker::PhantomData;
use core::time::Duration;

verus! {

/// The whole number of nanoseconds a `Duration` spans.
pub uninterp spec fn duration_nanos(d: Duration) -> u128;

/// Relies on `Duration::from_nanos`: the duration spans exactly `nanos`
/// nanoseconds.
pub assume_specification[ core::time::Duration::from_nanos ](nanos: u64) -> (r: Duration)
    ensures
        duration_nanos(r) == nanos,
;

/// A source of time.
pub trait Clock: Sized {

}

/// A clock that can be read.
pub trait Now: Clock {
    fn now() -> Instance<Self>;
}

/// A clock that never goes backwards.
pub trait Monotonic {

}

/// A clock that follows the wall-clock time.
pub trait WallTime {

}

/// A point in time of clock `T`.
#[derive(Debug)]
pub struct Instance<T: Clock> {
    nanosecs: u64,
    _type: PhantomData<T>,
}

impl<T: Clock> Clone for Instance<T> {
    fn clone(&self) -> (r: Self)
        ensures
            r.nanos() == self.nanos(),
    {
        Instance { nanosecs: self.nanosecs, _type: PhantomData }
    }
}

impl<T: Clock> Copy for Instance<T> {

}

impl<T: Clock> Instance<T> {
    /// Nanoseconds since the clock's origin.
    pub closed spec fn nanos(&self) -> u64 {
        self.nanosecs
    }

    /// The point `nanosecs` nanoseconds after the clock's origin.
    pub fn new(nanosecs: u64) -> (r: Self)
        ensures
            r.nanos() == nanosecs,
    {
        Instance { nanosecs, _type: PhantomData }
    }

    /// Nanoseconds since the clock's origin.
    pub fn as_nanos(&self) -> (r: u64)
        ensures
            r == self.nanos(),
    {
        self.nanosecs
    }

    /// The time from `earlier` to this point; `None` if `earlier` is later.
    pub fn since(&self, earlier: Instance<T>) -> (r: Option<Duration>)
        ensures
            earlier.nanos() > self.nanos() ==> r is None,
            earlier.nanos() <= self.nanos() ==> (r matches Some(d) && duration_nanos(d)
                == self.nanos() - earlier.nanos()),
    {
        if earlier.nanosecs > self.nanosecs {
            None
        } else {
            Some(Duration::from_nanos(self.nanosecs - earlier.nanosecs))
        }
    }
}

impl<T: Clock + Monotonic> Instance<T> {
    /// The time from this point to `now`, a reading of the same monotonic
    /// clock; zero if `now` is earlier than this point.
    pub fn elapsed_at(&self, now: Instance<T>) -> (r: Duration)
        ensures
            duration_nanos(r) == if now.nanos() >= self.nanos() {
                now.nanos() - self.nanos()
            } else {
                0
            },
    {
        match now.since(Instance { nanosecs: self.nanosecs, _type: PhantomData }) {
            Some(d) => d,
            None => Duration::from_nanos(0),
        }
    }
}

impl<T: Clock + Now + Monotonic> Instance<T> {
    /// The time from this point to now on a monotonic clock; zero if the
    /// clock reads earlier than this point.
    pub fn elapsed(&self) -> (r: Duration)
        ensures
            duration_nanos(r) <= u64::MAX - self.nanos(),
    {
        self.elapsed_at(T::now())
    }
}

} // verus!
