//! Trigger events and the publisher-side id counter.

use vstd::prelude::*;

verus! {

/// An immutable hardware-trigger record.
///
/// `id` is strictly increasing per publisher instance and unique within a
/// session. `hardware_timestamp_ns` is the instant the physical trigger
/// fired (the exposure instant); `publish_timestamp_ns` is the instant the
/// event was handed to the bus. Both are nanoseconds since a fixed epoch.
#[derive(Clone, Copy, Debug, PartialEq, Eq, Structural)]
pub struct TriggerEvent {
    pub id: u64,
    pub hardware_timestamp_ns: u64,
    pub publish_timestamp_ns: u64,
}

/// Owns the strictly increasing trigger-id counter of one publisher
/// instance, so that no ambient mutable state is needed.
pub struct TriggerSource {
    pub last_id: u64,
}

impl TriggerSource {
    /// A fresh source; the first event it produces carries id 1.
    pub fn new() -> (s: Self)
        ensures
            s.last_id == 0,
    {
        TriggerSource { last_id: 0 }
    }

    /// Builds the next trigger event from the two clock readings, advancing
    /// the id counter by exactly one.
    pub fn next_event(&mut self, hardware_timestamp_ns: u64, publish_timestamp_ns: u64)
        -> (ev: TriggerEvent)
        requires
            old(self).last_id < u64::MAX,
        ensures
            final(self).last_id == old(self).last_id + 1,
            ev.id == final(self).last_id,
            ev.hardware_timestamp_ns == hardware_timestamp_ns,
            ev.publish_timestamp_ns == publish_timestamp_ns,
    {
        self.last_id = self.last_id + 1;
        TriggerEvent { id: self.last_id, hardware_timestamp_ns, publish_timestamp_ns }
    }
}

} // verus!
