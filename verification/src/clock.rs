use vstd::prelude::*;

verus! {

/// A time source in milliseconds. The estimator is constructed over one of
/// these so that every computation can be driven either by the running
/// system's clock or by an explicitly scripted one.
pub trait GetTimestamp {
    /// The reading the next call is known to return, if the source is
    /// deterministic; `None` for a source whose readings cannot be predicted.
    spec fn known_timestamp(&self) -> Option<u64>;

    fn get_timestamp(&self) -> (r: u64)
        ensures
            self.known_timestamp() is Some ==> r == self.known_timestamp()->Some_0,
    ;
}

/// A deterministic time source: it reports exactly the value it was last
/// given, as many times as it is asked, until the value is changed.
pub struct TestTimer {
    timestamp: u64,
}

impl TestTimer {
    pub closed spec fn spec_timestamp(&self) -> u64 {
        self.timestamp
    }

    pub fn new() -> (r: TestTimer)
        ensures
            r.spec_timestamp() == 0,
    {
        TestTimer { timestamp: 0 }
    }

    pub fn set_timestamp(&mut self, ts: u64)
        ensures
            final(self).spec_timestamp() == ts,
    {
        self.timestamp = ts;
    }
}

impl GetTimestamp for TestTimer {
    open spec fn known_timestamp(&self) -> Option<u64> {
        Some(self.spec_timestamp())
    }

    fn get_timestamp(&self) -> (r: u64) {
        self.timestamp
    }
}

/// A time source backed by the running system's high-resolution counter.
pub struct SystemTimer;

impl SystemTimer {
    pub fn new() -> SystemTimer {
        SystemTimer
    }
}

/// Relies on time::precise_time_ns: the current value of a high-resolution
/// counter, in nanoseconds since an unspecified epoch. Nothing can be
/// promised of a clock reading, so no result is stated.
#[verifier::external_body]
fn current_time_ns() -> u64 {
    time::precise_time_ns()
}

/// A nanosecond reading converted to whole milliseconds.
pub fn ms_of_ns(ns: u64) -> (r: u64)
    ensures
        r == ns / 1_000_000,
{
    ns / 1_000_000
}

/// Law: the millisecond conversion preserves the order of the readings, so
/// a non-decreasing nanosecond counter yields non-decreasing timestamps.
pub proof fn lemma_ms_of_ns_monotone(ns1: u64, ns2: u64)
    requires
        ns1 <= ns2,
    ensures
        ns1 / 1_000_000 <= ns2 / 1_000_000,
{
    vstd::arithmetic::div_mod::lemma_div_is_ordered(ns1 as int, ns2 as int, 1_000_000);
}

impl GetTimestamp for SystemTimer {
    open spec fn known_timestamp(&self) -> Option<u64> {
        None
    }

    fn get_timestamp(&self) -> (r: u64)
        ensures
            r <= 0xffff_ffff_ffff_ffffu64 / 1_000_000,
    {
        ms_of_ns(current_time_ns())
    }
}

} // verus!
