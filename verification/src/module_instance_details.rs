//! Metric capability traits.
//!
//! Each sample-kind variant implements only the capabilities it has, and
//! every aggregation function is written once per capability, so the
//! statistics math is never duplicated per variant.

use vstd::prelude::*;
use crate::data_model::{Channel, Global, Local, Loop, OperationType};
use crate::numeric::Decimal;

verus! {

/// How the hardware interacts with memory: operation direction and
/// coalescing.
pub trait Interaction {
    spec fn spec_operation_type(&self) -> OperationType;

    spec fn spec_coalesced_memory(&self) -> bool;

    fn operation_type(&self) -> (r: &OperationType)
        ensures
            *r == self.spec_operation_type(),
    ;

    fn coalesced_memory(&self) -> (r: &bool)
        ensures
            *r == self.spec_coalesced_memory(),
    ;
}

/// Per-interval busy-cycle counts.
pub trait Occupancy {
    spec fn spec_occupancy_samples(&self) -> Seq<u64>;

    fn occupancy_samples(&self) -> (r: &[u64])
        ensures
            r@ == self.spec_occupancy_samples(),
    ;
}

/// Per-interval stall, idle and activity cycle counts.
pub trait Stall {
    spec fn spec_stall_samples(&self) -> Seq<u64>;

    spec fn spec_idle_samples(&self) -> Seq<u64>;

    spec fn spec_activity_samples(&self) -> Seq<u64>;

    fn stall_samples(&self) -> (r: &[u64])
        ensures
            r@ == self.spec_stall_samples(),
    ;

    fn idle_samples(&self) -> (r: &[u64])
        ensures
            r@ == self.spec_idle_samples(),
    ;

    fn activity_samples(&self) -> (r: &[u64])
        ensures
            r@ == self.spec_activity_samples(),
    ;
}

/// Per-interval bandwidth samples.
pub trait Bandwidth {
    spec fn spec_bandwidth_samples(&self) -> Seq<Decimal>;

    fn bandwidth_samples(&self) -> (r: &[Decimal])
        ensures
            r@ == self.spec_bandwidth_samples(),
    ;
}

/// Per-interval effective-bandwidth, cache-hit and burst-size samples.
pub trait Effectiveness {
    spec fn spec_bandwidth_effective_samples(&self) -> Seq<Decimal>;

    spec fn spec_cache_hit_samples(&self) -> Seq<Decimal>;

    spec fn spec_average_burst_size(&self) -> Seq<Decimal>;

    fn bandwidth_effective_samples(&self) -> (r: &[Decimal])
        ensures
            r@ == self.spec_bandwidth_effective_samples(),
    ;

    fn cache_hit_samples(&self) -> (r: &[Decimal])
        ensures
            r@ == self.spec_cache_hit_samples(),
    ;

    fn average_burst_size(&self) -> (r: &[Decimal])
        ensures
            r@ == self.spec_average_burst_size(),
    ;
}

/// Per-interval average and maximum channel depth samples.
pub trait ChannelDepth {
    spec fn spec_average_channel_depth_samples(&self) -> Seq<Decimal>;

    spec fn spec_maximum_channel_depth_samples(&self) -> Seq<u32>;

    fn average_channel_depth_samples(&self) -> (r: &[Decimal])
        ensures
            r@ == self.spec_average_channel_depth_samples(),
    ;

    fn maximum_channel_depth_samples(&self) -> (r: &[u32])
        ensures
            r@ == self.spec_maximum_channel_depth_samples(),
    ;
}

impl Interaction for Global {
    open spec fn spec_operation_type(&self) -> OperationType {
        self.operation_type
    }

    open spec fn spec_coalesced_memory(&self) -> bool {
        self.coalesced_memory
    }

    fn operation_type(&self) -> (r: &OperationType) {
        &self.operation_type
    }

    fn coalesced_memory(&self) -> (r: &bool) {
        &self.coalesced_memory
    }
}

impl Occupancy for Global {
    open spec fn spec_occupancy_samples(&self) -> Seq<u64> {
        self.occupancy_samples@
    }

    fn occupancy_samples(&self) -> (r: &[u64]) {
        self.occupancy_samples.as_slice()
    }
}

impl Stall for Global {
    open spec fn spec_stall_samples(&self) -> Seq<u64> {
        self.stall_samples@
    }

    open spec fn spec_idle_samples(&self) -> Seq<u64> {
        self.idle_samples@
    }

    open spec fn spec_activity_samples(&self) -> Seq<u64> {
        self.activity_samples@
    }

    fn stall_samples(&self) -> (r: &[u64]) {
        self.stall_samples.as_slice()
    }

    fn idle_samples(&self) -> (r: &[u64]) {
        self.idle_samples.as_slice()
    }

    fn activity_samples(&self) -> (r: &[u64]) {
        self.activity_samples.as_slice()
    }
}

impl Bandwidth for Global {
    open spec fn spec_bandwidth_samples(&self) -> Seq<Decimal> {
        self.bandwidth_samples@
    }

    fn bandwidth_samples(&self) -> (r: &[Decimal]) {
        self.bandwidth_samples.as_slice()
    }
}

impl Effectiveness for Global {
    open spec fn spec_bandwidth_effective_samples(&self) -> Seq<Decimal> {
        self.bandwidth_effective_samples@
    }

    open spec fn spec_cache_hit_samples(&self) -> Seq<Decimal> {
        self.cache_hit_samples@
    }

    open spec fn spec_average_burst_size(&self) -> Seq<Decimal> {
        self.average_burst_size@
    }

    fn bandwidth_effective_samples(&self) -> (r: &[Decimal]) {
        self.bandwidth_effective_samples.as_slice()
    }

    fn cache_hit_samples(&self) -> (r: &[Decimal]) {
        self.cache_hit_samples.as_slice()
    }

    fn average_burst_size(&self) -> (r: &[Decimal]) {
        self.average_burst_size.as_slice()
    }
}

impl Interaction for Local {
    open spec fn spec_operation_type(&self) -> OperationType {
        self.operation_type
    }

    open spec fn spec_coalesced_memory(&self) -> bool {
        self.coalesced_memory
    }

    fn operation_type(&self) -> (r: &OperationType) {
        &self.operation_type
    }

    fn coalesced_memory(&self) -> (r: &bool) {
        &self.coalesced_memory
    }
}

impl Occupancy for Local {
    open spec fn spec_occupancy_samples(&self) -> Seq<u64> {
        self.occupancy_samples@
    }

    fn occupancy_samples(&self) -> (r: &[u64]) {
        self.occupancy_samples.as_slice()
    }
}

impl Stall for Local {
    open spec fn spec_stall_samples(&self) -> Seq<u64> {
        self.stall_samples@
    }

    open spec fn spec_idle_samples(&self) -> Seq<u64> {
        self.idle_samples@
    }

    open spec fn spec_activity_samples(&self) -> Seq<u64> {
        self.activity_samples@
    }

    fn stall_samples(&self) -> (r: &[u64]) {
        self.stall_samples.as_slice()
    }

    fn idle_samples(&self) -> (r: &[u64]) {
        self.idle_samples.as_slice()
    }

    fn activity_samples(&self) -> (r: &[u64]) {
        self.activity_samples.as_slice()
    }
}

impl Interaction for Channel {
    open spec fn spec_operation_type(&self) -> OperationType {
        self.operation_type
    }

    open spec fn spec_coalesced_memory(&self) -> bool {
        self.coalesced_memory
    }

    fn operation_type(&self) -> (r: &OperationType) {
        &self.operation_type
    }

    fn coalesced_memory(&self) -> (r: &bool) {
        &self.coalesced_memory
    }
}

impl Occupancy for Channel {
    open spec fn spec_occupancy_samples(&self) -> Seq<u64> {
        self.occupancy_samples@
    }

    fn occupancy_samples(&self) -> (r: &[u64]) {
        self.occupancy_samples.as_slice()
    }
}

impl Stall for Channel {
    open spec fn spec_stall_samples(&self) -> Seq<u64> {
        self.stall_samples@
    }

    open spec fn spec_idle_samples(&self) -> Seq<u64> {
        self.idle_samples@
    }

    open spec fn spec_activity_samples(&self) -> Seq<u64> {
        self.activity_samples@
    }

    fn stall_samples(&self) -> (r: &[u64]) {
        self.stall_samples.as_slice()
    }

    fn idle_samples(&self) -> (r: &[u64]) {
        self.idle_samples.as_slice()
    }

    fn activity_samples(&self) -> (r: &[u64]) {
        self.activity_samples.as_slice()
    }
}

impl Bandwidth for Channel {
    open spec fn spec_bandwidth_samples(&self) -> Seq<Decimal> {
        self.bandwidth_samples@
    }

    fn bandwidth_samples(&self) -> (r: &[Decimal]) {
        self.bandwidth_samples.as_slice()
    }
}

impl ChannelDepth for Channel {
    open spec fn spec_average_channel_depth_samples(&self) -> Seq<Decimal> {
        self.average_channel_depth_samples@
    }

    open spec fn spec_maximum_channel_depth_samples(&self) -> Seq<u32> {
        self.maximum_channel_depth_samples@
    }

    fn average_channel_depth_samples(&self) -> (r: &[Decimal]) {
        self.average_channel_depth_samples.as_slice()
    }

    fn maximum_channel_depth_samples(&self) -> (r: &[u32]) {
        self.maximum_channel_depth_samples.as_slice()
    }
}

impl Occupancy for Loop {
    open spec fn spec_occupancy_samples(&self) -> Seq<u64> {
        self.occupancy_samples@
    }

    fn occupancy_samples(&self) -> (r: &[u64]) {
        self.occupancy_samples.as_slice()
    }
}

} // verus!
