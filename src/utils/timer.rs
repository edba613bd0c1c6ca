use vstd::prelude::*;
use core::time::Duration;

verus! {

/// The duration of `secs` whole seconds.
pub uninterp spec fn duration_of_secs(secs: u64) -> Duration;

/// Relies on `Duration::from_secs`: the duration of that many whole
/// seconds.
pub assume_specification[ Duration::from_secs ](secs: u64) -> (r: Duration)
    ensures
        r == duration_of_secs(secs),
;

/// A NAS timer: how long it runs.
pub struct Timer {
    duration: Duration,
}

impl Timer {
    pub closed spec fn spec_duration(&self) -> Duration {
        self.duration
    }

    pub fn new(duration: Duration) -> (r: Self)
        ensures
            r.spec_duration() == duration,
    {
        Timer { duration }
    }

    pub fn duration(&self) -> (r: Duration)
        ensures
            r == self.spec_duration(),
    {
        self.duration
    }
}

pub fn t3502(value: u32) -> (r: Timer)
    ensures
        r.spec_duration() == duration_of_secs(value as u64),
{
    Timer::new(Duration::from_secs(value as u64))
}

pub fn t3510(value: u32) -> (r: Timer)
    ensures
        r.spec_duration() == duration_of_secs(value as u64),
{
    Timer::new(Duration::from_secs(value as u64))
}

pub fn t3512(value: u32) -> (r: Timer)
    ensures
        r.spec_duration() == duration_of_secs(value as u64),
{
    Timer::new(Duration::from_secs(value as u64))
}

pub fn t3560(value: u32) -> (r: Timer)
    ensures
        r.spec_duration() == duration_of_secs(value as u64),
{
    Timer::new(Duration::from_secs(value as u64))
}

pub fn t3565(value: u32) -> (r: Timer)
    ensures
        r.spec_duration() == duration_of_secs(value as u64),
{
    Timer::new(Duration::from_secs(value as u64))
}

} // verus!
